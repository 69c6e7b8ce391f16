//! The first game-jam bot: games with one author, a queue, skipped games
//! and a raffle with per-viewer weights.

use vstd::prelude::*;
use crate::gamejam::bot::{at_text, bump_all, opt_text, possible_winner, raffle_weights_of};
use crate::random::{choose_weighted_entry, weight_sum};
use crate::ld::Game;
use crate::table::{has_key, keys_unique, lemma_bump, lemma_remove_unique, lookup, remove_key, upsert, LuckTable};
use crate::text::{concat_text, decimal, has_prefix, starts_with, str_eq, u64_to_string};
use vstd::string::StringExecFns;

verus! {

/// Whether a raffle runs, with the viewers who joined it and their
/// weights.
pub enum RaffleMode {
    Inactive,
    Active { joined: LuckTable },
}

/// The raffle: each viewer's weight, and the raffle in progress.
pub struct Raffle {
    pub viewers_weight: LuckTable,
    pub mode: RaffleMode,
}

impl Raffle {
    /// No weights, no raffle running.
    pub fn new() -> (r: Raffle)
        ensures
            r.viewers_weight@.len() == 0,
            r.viewers_weight.wf(),
            r.mode is Inactive,
    {
        Raffle { viewers_weight: LuckTable::new(), mode: RaffleMode::Inactive }
    }
}

/// The queue, the game being played and the raffle.
pub struct GamesState {
    pub is_open: bool,
    pub current_game: Option<Game>,
    pub returned_queue: Vec<Game>,
    pub games_queue: Vec<Game>,
    pub skipped: Vec<Game>,
    pub raffle: Raffle,
}

impl GamesState {
    /// An open, empty queue with no raffle.
    pub fn new() -> (r: GamesState)
        ensures
            r.is_open,
            r.current_game is None,
            r.returned_queue@.len() == 0,
            r.games_queue@.len() == 0,
            r.skipped@.len() == 0,
            r.raffle.viewers_weight@.len() == 0,
            r.raffle.mode is Inactive,
    {
        GamesState {
            is_open: true,
            current_game: None,
            returned_queue: Vec::new(),
            games_queue: Vec::new(),
            skipped: Vec::new(),
            raffle: Raffle::new(),
        }
    }

    /// The queued games in playing order: the returned ones, then the
    /// others.
    pub fn queue(&self) -> (r: Vec<&Game>)
        ensures
            r@.len() == self.returned_queue@.len() + self.games_queue@.len(),
            forall|i: int| 0 <= i < r@.len() ==> *#[trigger] r@[i] == (self.returned_queue@ + self.games_queue@)[i],
    {
        let mut r: Vec<&Game> = Vec::new();
        let mut i: usize = 0;
        while i < self.returned_queue.len()
            invariant
                i <= self.returned_queue@.len(),
                r@.len() == i,
                forall|k: int| 0 <= k < i ==> *#[trigger] r@[k] == self.returned_queue@[k],
            decreases self.returned_queue@.len() - i,
        {
            r.push(&self.returned_queue[i]);
            i = i + 1;
        }
        let mut j: usize = 0;
        while j < self.games_queue.len()
            invariant
                j <= self.games_queue@.len(),
                r@.len() == self.returned_queue@.len() + j,
                forall|k: int|
                    0 <= k < r@.len() ==> *#[trigger] r@[k] == (self.returned_queue@ + self.games_queue@)[k],
            decreases self.games_queue@.len() - j,
        {
            r.push(&self.games_queue[j]);
            j = j + 1;
        }
        r
    }
}


/// A game as a model: its author and its name.
pub type GameV = (Seq<char>, Seq<char>);

/// The models of a list of games.
pub open spec fn games_of(v: Seq<Game>) -> Seq<GameV> {
    v.map_values(|g: Game| g@)
}

pub proof fn lemma_games_of_push(v: Seq<Game>, g: Game)
    ensures
        games_of(v.push(g)) == games_of(v).push(g@),
{
    assert(games_of(v.push(g)) =~= games_of(v).push(g@));
}

pub proof fn lemma_games_of_remove(v: Seq<Game>, i: int)
    requires
        0 <= i < v.len(),
    ensures
        games_of(v.remove(i)) == games_of(v).remove(i),
        games_of(v)[i] == v[i]@,
{
    assert(games_of(v.remove(i)) =~= games_of(v).remove(i));
}

pub proof fn lemma_games_of_insert_front(v: Seq<Game>, g: Game)
    ensures
        games_of(v.insert(0, g)) == seq![g@] + games_of(v),
{
    assert(games_of(v.insert(0, g)) =~= seq![g@] + games_of(v));
}

/// The index of the first game from the `i`-th on whose author is `a`.
pub open spec fn by_author(s: Seq<GameV>, a: Seq<char>, i: int) -> Option<int>
    decreases s.len() - i,
{
    if 0 <= i < s.len() {
        if s[i].0 == a {
            Some(i)
        } else {
            by_author(s, a, i + 1)
        }
    } else {
        None
    }
}

/// Whether a game named `name` is among `s`.
pub open spec fn has_name(s: Seq<GameV>, name: Seq<char>) -> bool {
    exists|i: int| 0 <= i < s.len() && (#[trigger] s[i]).1 == name
}

pub proof fn lemma_by_author(s: Seq<GameV>, a: Seq<char>, i: int)
    requires
        0 <= i,
    ensures
        match by_author(s, a, i) {
            Some(j) => i <= j < s.len() && s[j].0 == a,
            None => forall|k: int| i <= k < s.len() ==> s[k].0 != a,
        },
    decreases s.len() - i,
{
    if i < s.len() && s[i].0 != a {
        lemma_by_author(s, a, i + 1);
    }
}

/// The index of the first game of `games` by `author`.
fn position_by_author(games: &Vec<Game>, author: &str) -> (r: Option<usize>)
    ensures
        match by_author(games_of(games@), author@, 0) {
            Some(i) => r matches Some(j) && j == i,
            None => r is None,
        },
{
    let ghost s = games_of(games@);
    let mut i: usize = 0;
    while i < games.len()
        invariant
            i <= games@.len(),
            s == games_of(games@),
            by_author(s, author@, 0) == by_author(s, author@, i as int),
        decreases games@.len() - i,
    {
        if str_eq(games[i].author.as_str(), author) {
            return Some(i);
        }
        i = i + 1;
    }
    None
}

/// Whether a game of `games` is named `name`.
fn any_named(games: &Vec<Game>, name: &str) -> (b: bool)
    ensures
        b == has_name(games_of(games@), name@),
{
    let ghost s = games_of(games@);
    let mut i: usize = 0;
    while i < games.len()
        invariant
            i <= games@.len(),
            s == games_of(games@),
            forall|k: int| 0 <= k < i ==> s[k].1 != name@,
        decreases games@.len() - i,
    {
        if str_eq(games[i].name.as_str(), name) {
            assert(s[i as int].1 == name@);
            return true;
        }
        i = i + 1;
    }
    false
}

/// How the first game-jam bot runs.
pub struct GameJamConfig {
    pub queue_mode: bool,
    /// `!queue` answers.
    pub enable_queue_command: bool,
    /// Seconds an author has to answer.
    pub response_time_limit: Option<u64>,
    pub link_start: Option<String>,
    pub allow_direct_link_submit: bool,
    pub raffle_default_weight: u32,
    /// The spreadsheet that shows the queue.
    pub sheet_id: Option<String>,
}

/// The first game-jam bot.
pub struct GameJamBot {
    pub config: GameJamConfig,
    pub games_state: GamesState,
    pub played_games: Vec<Game>,
    /// The bot waits for the current game's author to answer.
    pub waiting: bool,
    /// The state has changed and is to be saved and shown in the sheet.
    pub update_sheets: bool,
    /// The list of played games has changed and is to be saved.
    pub played_games_changed: bool,
}

/// The model of the first game-jam bot.
#[verifier::ext_equal]
pub struct ClassicView {
    pub open: bool,
    pub current: Option<GameV>,
    pub returned: Seq<GameV>,
    pub games: Seq<GameV>,
    pub skipped: Seq<GameV>,
    pub played: Seq<GameV>,
    pub weights: Seq<(Seq<char>, u32)>,
    pub raffle: Option<Seq<(Seq<char>, u32)>>,
    pub waiting: bool,
    pub saved: bool,
    pub played_saved: bool,
}

impl View for GameJamBot {
    type V = ClassicView;

    open spec fn view(&self) -> ClassicView {
        ClassicView {
            open: self.games_state.is_open,
            current: match self.games_state.current_game {
                Some(g) => Some(g@),
                None => None,
            },
            returned: games_of(self.games_state.returned_queue@),
            games: games_of(self.games_state.games_queue@),
            skipped: games_of(self.games_state.skipped@),
            played: games_of(self.played_games@),
            weights: self.games_state.raffle.viewers_weight@,
            raffle: match self.games_state.raffle.mode {
                RaffleMode::Active { joined } => Some(joined@),
                RaffleMode::Inactive => None,
            },
            waiting: self.waiting,
            saved: self.update_sheets,
            played_saved: self.played_games_changed,
        }
    }
}

/// No viewer has two weights or two raffle entries, and the bot only
/// waits where a time limit is set.
pub open spec fn classic_wf(v: ClassicView, c: GameJamConfig) -> bool {
    &&& keys_unique(v.weights)
    &&& (v.raffle matches Some(j) ==> keys_unique(j))
    &&& (v.waiting ==> c.response_time_limit is Some)
}

/// The state marked as to be saved.
pub open spec fn saved(v: ClassicView) -> ClassicView {
    ClassicView { saved: true, ..v }
}

/// `Now playing <name> from @<author>. `.
pub open spec fn now_playing(g: GameV) -> Seq<char> {
    "Now playing "@ + g.1 + " from @"@ + g.0 + ". "@
}

/// Playing `game` (or nothing): the current game goes to the played list,
/// the new author's raffle weight is dropped.
pub open spec fn set_current_spec(v: ClassicView, game: Option<GameV>) -> (ClassicView, Option<Seq<char>>) {
    let v1 = match v.current {
        Some(g) => ClassicView { played: v.played.push(g), played_saved: true, ..v },
        None => v,
    };
    match game {
        Some(g) => (
            ClassicView { current: Some(g), weights: remove_key(v1.weights, g.0), saved: true, ..v1 },
            Some(now_playing(g)),
        ),
        None => (ClassicView { current: None, saved: true, ..v1 }, None),
    }
}

/// Removing `author`'s first game from the returned games, else from the
/// other queued games, else from the skipped ones.
pub open spec fn remove_spec(v: ClassicView, author: Seq<char>) -> (ClassicView, Option<GameV>) {
    match by_author(v.returned, author, 0) {
        Some(i) => (ClassicView { returned: v.returned.remove(i), ..v }, Some(v.returned[i])),
        None => match by_author(v.games, author, 0) {
            Some(i) => (ClassicView { games: v.games.remove(i), ..v }, Some(v.games[i])),
            None => match by_author(v.skipped, author, 0) {
                Some(i) => (ClassicView { skipped: v.skipped.remove(i), ..v }, Some(v.skipped[i])),
                None => (v, None),
            },
        },
    }
}

/// Taking the next game: `author`'s where given, else the first returned
/// one, else the first queued one; with a time limit and `confirm`, the
/// bot then waits for the author.
pub open spec fn next_spec(v: ClassicView, c: GameJamConfig, author: Option<Seq<char>>, confirm: bool) -> (
    ClassicView,
    Option<Seq<char>>,
) {
    let (v1, found, err) = match author {
        Some(a) => {
            let (w, g) = remove_spec(v, a);
            (w, g, "Couldn't find a game from "@ + a)
        },
        None => if v.returned.len() > 0 {
            (ClassicView { returned: v.returned.drop_first(), ..v }, Some(v.returned[0]), Seq::empty())
        } else if v.games.len() > 0 {
            (ClassicView { games: v.games.drop_first(), ..v }, Some(v.games[0]), Seq::empty())
        } else {
            (v, None, "The queue is empty. !submit <your game>. "@)
        },
    };
    let v2 = ClassicView { waiting: false, ..v1 };
    let (v3, reply) = match found {
        Some(g) => {
            let (v4, r) = set_current_spec(v2, Some(g));
            if confirm && c.response_time_limit is Some {
                (
                    ClassicView { waiting: true, ..v4 },
                    Some(
                        "@"@ + g.0 + ", we are about to play your game. Please reply in "@ + decimal(
                            c.response_time_limit->0 as nat,
                        ) + " seconds."@,
                    ),
                )
            } else {
                (v4, r)
            }
        },
        None => (set_current_spec(v2, None).0, Some(err)),
    };
    (saved(v3), reply)
}

/// Skipping the current game; with `auto_next` the next game follows.
pub open spec fn skip_spec(v: ClassicView, c: GameJamConfig, auto_next: bool) -> (ClassicView, Option<Seq<char>>) {
    match v.current {
        Some(g) => {
            let v1 = ClassicView { current: None, skipped: v.skipped.push(g), ..v };
            if auto_next {
                let (v2, r) = next_spec(v1, c, None, true);
                (
                    v2,
                    Some(
                        match r {
                            Some(x) => x,
                            None => "Game has been skipped."@,
                        },
                    ),
                )
            } else {
                (saved(v1), Some("Game has been skipped."@))
            }
        },
        None => (v, Some("Not playing any game at the moment."@)),
    }
}

/// An optional game as a model.
pub open spec fn opt_game(g: Option<Game>) -> Option<GameV> {
    match g {
        Some(x) => Some(x@),
        None => None,
    }
}

impl GameJamBot {
    /// The bot's invariant.
    pub open spec fn wf(&self) -> bool {
        classic_wf(self@, self.config)
    }

    /// A bot with an open, empty queue, nothing played and no raffle.
    pub fn new(config: GameJamConfig) -> (r: GameJamBot)
        ensures
            r.wf(),
            r.config == config,
            r@ == (ClassicView {
                open: true,
                current: None,
                returned: Seq::empty(),
                games: Seq::empty(),
                skipped: Seq::empty(),
                played: Seq::empty(),
                weights: Seq::empty(),
                raffle: None,
                waiting: false,
                saved: false,
                played_saved: false,
            }),
    {
        let r = GameJamBot {
            config,
            games_state: GamesState::new(),
            played_games: Vec::new(),
            waiting: false,
            update_sheets: false,
            played_games_changed: false,
        };
        proof {
            assert(games_of(r.games_state.returned_queue@) =~= Seq::empty());
            assert(games_of(r.games_state.games_queue@) =~= Seq::empty());
            assert(games_of(r.games_state.skipped@) =~= Seq::empty());
            assert(games_of(r.played_games@) =~= Seq::empty());
            assert(r.games_state.raffle.viewers_weight@ =~= Seq::empty());
        }
        r
    }

    /// Whether the bot's invariant holds (a state read from a save may
    /// break it).
    pub fn check_state(&self) -> (b: bool)
        ensures
            b == self.wf(),
    {
        if self.waiting && self.config.response_time_limit.is_none() {
            return false;
        }
        if !self.games_state.raffle.viewers_weight.unique_keys() {
            return false;
        }
        match &self.games_state.raffle.mode {
            RaffleMode::Active { joined } => joined.unique_keys(),
            RaffleMode::Inactive => true,
        }
    }

    fn push_played(&mut self, game: Game)
        ensures
            final(self)@ == (ClassicView {
                played: old(self)@.played.push(game@),
                played_saved: true,
                ..old(self)@
            }),
            final(self).config == old(self).config,
    {
        proof {
            lemma_games_of_push(self.played_games@, game);
        }
        self.played_games.push(game);
        self.played_games_changed = true;
    }

    /// Starts playing `game`, or stops playing; the game played until now
    /// goes to the played list.
    pub fn set_current(&mut self, game: Option<Game>) -> (r: Option<String>)
        requires
            old(self).wf(),
        ensures
            final(self).wf(),
            final(self).config == old(self).config,
            (final(self)@, opt_text(r)) == set_current_spec(old(self)@, opt_game(game)),
    {
        let mut current: Option<Game> = None;
        std::mem::swap(&mut current, &mut self.games_state.current_game);
        match current {
            Some(g) => self.push_played(g),
            None => {},
        }
        let reply = match game {
            Some(game) => {
                let mut r = concat_text("Now playing ", game.name.as_str());
                r.append(" from @");
                r.append(game.author.as_str());
                r.append(". ");
                self.games_state.raffle.viewers_weight.remove(game.author.as_str());
                self.games_state.current_game = Some(game);
                Some(r)
            },
            None => {
                self.games_state.current_game = None;
                None
            },
        };
        self.update_sheets = true;
        proof {
            assert(self@ =~= set_current_spec(old(self)@, opt_game(game)).0);
        }
        reply
    }

    /// Removes `author_name`'s first game from the returned games, else
    /// from the other queued ones, else from the skipped ones.
    pub fn remove_game(&mut self, author_name: &str) -> (r: Option<Game>)
        requires
            old(self).wf(),
        ensures
            final(self).wf(),
            final(self).config == old(self).config,
            (final(self)@, opt_game(r)) == remove_spec(old(self)@, author_name@),
    {
        let ghost v = self@;
        proof {
            lemma_by_author(v.returned, author_name@, 0);
            lemma_by_author(v.games, author_name@, 0);
            lemma_by_author(v.skipped, author_name@, 0);
        }
        match position_by_author(&self.games_state.returned_queue, author_name) {
            Some(i) => {
                proof {
                    lemma_games_of_remove(self.games_state.returned_queue@, i as int);
                }
                let g = self.games_state.returned_queue.remove(i);
                proof {
                    assert(self@ =~= remove_spec(v, author_name@).0);
                }
                return Some(g);
            },
            None => {},
        }
        match position_by_author(&self.games_state.games_queue, author_name) {
            Some(i) => {
                proof {
                    lemma_games_of_remove(self.games_state.games_queue@, i as int);
                }
                let g = self.games_state.games_queue.remove(i);
                proof {
                    assert(self@ =~= remove_spec(v, author_name@).0);
                }
                return Some(g);
            },
            None => {},
        }
        match position_by_author(&self.games_state.skipped, author_name) {
            Some(i) => {
                proof {
                    lemma_games_of_remove(self.games_state.skipped@, i as int);
                }
                let g = self.games_state.skipped.remove(i);
                proof {
                    assert(self@ =~= remove_spec(v, author_name@).0);
                }
                Some(g)
            },
            None => None,
        }
    }

    /// Takes the next game: `author_name`'s where given, else the next in
    /// the queue.
    pub fn next(&mut self, author_name: Option<&str>, confirmation_required: bool) -> (r: Option<String>)
        requires
            old(self).wf(),
        ensures
            final(self).wf(),
            final(self).config == old(self).config,
            (final(self)@, opt_text(r)) == next_spec(
                old(self)@,
                old(self).config,
                match author_name {
                    Some(a) => Some(a@),
                    None => None,
                },
                confirmation_required,
            ),
    {
        let ghost v = self@;
        let found: Result<Game, String> = match author_name {
            Some(a) => match self.remove_game(a) {
                Some(g) => Ok(g),
                None => Err(concat_text("Couldn't find a game from ", a)),
            },
            None => {
                if self.games_state.returned_queue.len() > 0 {
                    proof {
                        lemma_games_of_remove(self.games_state.returned_queue@, 0);
                        assert(v.returned.remove(0) =~= v.returned.drop_first());
                    }
                    Ok(self.games_state.returned_queue.remove(0))
                } else if self.games_state.games_queue.len() > 0 {
                    proof {
                        lemma_games_of_remove(self.games_state.games_queue@, 0);
                        assert(v.games.remove(0) =~= v.games.drop_first());
                    }
                    Ok(self.games_state.games_queue.remove(0))
                } else {
                    Err("The queue is empty. !submit <your game>. ".to_owned())
                }
            },
        };
        self.waiting = false;
        let reply = match found {
            Ok(game) => {
                let author = game.author.clone();
                let r = self.set_current(Some(game));
                if confirmation_required {
                    match self.config.response_time_limit {
                        Some(t) => {
                            self.waiting = true;
                            let mut w = concat_text("@", author.as_str());
                            w.append(", we are about to play your game. Please reply in ");
                            w.append(u64_to_string(t).as_str());
                            w.append(" seconds.");
                            Some(w)
                        },
                        None => r,
                    }
                } else {
                    r
                }
            },
            Err(message) => {
                self.set_current(None);
                Some(message)
            },
        };
        self.update_sheets = true;
        reply
    }

    /// Skips the current game; with `auto_next` the next game follows.
    pub fn skip(&mut self, auto_next: bool) -> (r: Option<String>)
        requires
            old(self).wf(),
        ensures
            final(self).wf(),
            final(self).config == old(self).config,
            (final(self)@, opt_text(r)) == skip_spec(old(self)@, old(self).config, auto_next),
    {
        let mut current: Option<Game> = None;
        std::mem::swap(&mut current, &mut self.games_state.current_game);
        match current {
            Some(game) => {
                proof {
                    lemma_games_of_push(self.games_state.skipped@, game);
                }
                self.games_state.skipped.push(game);
                if auto_next {
                    match self.next(None, true) {
                        Some(x) => Some(x),
                        None => Some("Game has been skipped.".to_owned()),
                    }
                } else {
                    self.update_sheets = true;
                    Some("Game has been skipped.".to_owned())
                }
            },
            None => Some("Not playing any game at the moment.".to_owned()),
        }
    }
}


/// Where a raffle runs and a winner is given, the winner is one of its
/// entries.
pub open spec fn winner_in_range(v: ClassicView, winner: Option<usize>) -> bool {
    match (v.raffle, winner) {
        (Some(j), Some(i)) => i < j.len(),
        _ => true,
    }
}

/// The bot became `v` and answered `r`, as `outcome` says.
pub open spec fn finish_reply(v: ClassicView, r: Option<String>, outcome: (ClassicView, Seq<char>)) -> bool {
    r matches Some(x) && v == outcome.0 && x@ == outcome.1
}

/// Whether `link` may be submitted: it starts with the configured start,
/// where one is set.
pub open spec fn link_ok(c: GameJamConfig, link: Seq<char>) -> bool {
    match c.link_start {
        Some(s) => has_prefix(link, s@),
        None => true,
    }
}

/// Submitting `link` for `sender`.
pub open spec fn submit_spec(v: ClassicView, c: GameJamConfig, link: Seq<char>, sender: Seq<char>) -> (
    ClassicView,
    Seq<char>,
) {
    if !v.open {
        (v, "The queue is closed. You can not submit your game at the moment."@)
    } else if !link_ok(c, link) {
        (v, "@"@ + sender + ", that link can not be submitted"@)
    } else if v.current matches Some(g) && g.1 == link {
        (v, "@"@ + sender + ", we are playing that game right now!"@)
    } else if has_name(v.returned + v.games, link) {
        (v, "@"@ + sender + ", that game has already been submitted."@)
    } else if has_name(v.skipped, link) {
        (v, "@"@ + sender + ", your game was skipped. You may return to the queue using !return command"@)
    } else if has_name(v.played, link) {
        (v, "@"@ + sender + ", we have already played that game."@)
    } else {
        (saved(ClassicView { games: v.games.push((sender, link)), ..v }), "@"@ + sender + ", your game has been submitted!"@)
    }
}

/// Starting a raffle.
pub open spec fn raffle_start_spec(v: ClassicView) -> (ClassicView, Seq<char>) {
    (saved(ClassicView { raffle: Some(Seq::empty()), ..v }), "The raffle has started! Type !join to join the raffle."@)
}

/// `sender` joins the raffle at their saved weight (the default one, saved
/// first, where they have none); the weight is saved even when no raffle
/// runs.
pub open spec fn raffle_join_spec(v: ClassicView, c: GameJamConfig, sender: Seq<char>) -> ClassicView {
    let (w, weights) = match lookup(v.weights, sender) {
        Some(x) => (x, v.weights),
        None => (c.raffle_default_weight, v.weights.push((sender, c.raffle_default_weight))),
    };
    ClassicView {
        weights,
        raffle: match v.raffle {
            Some(j) => Some(upsert(j, sender, w)),
            None => None,
        },
        ..v
    }
}

/// Calling off the raffle.
pub open spec fn raffle_undo_spec(v: ClassicView) -> (ClassicView, Seq<char>) {
    (saved(ClassicView { raffle: None, ..v }), "Raffle is now inactive"@)
}

/// Finishing the raffle whose draw gave the `winner`-th entry (none where
/// the draw failed): every entry's weight grows by one; the winner's game
/// is played, or, where they have none, their weight is dropped.
pub open spec fn raffle_finish_with_spec(v: ClassicView, winner: Option<int>) -> (ClassicView, Seq<char>) {
    match v.raffle {
        None => (saved(v), "The raffle should be started first: !raffle"@),
        Some(j) => {
            let v1 = ClassicView { raffle: None, weights: bump_all(v.weights, j), ..v };
            match winner {
                Some(i) => {
                    let name = j[i].0;
                    let (v2, g) = remove_spec(v1, name);
                    match g {
                        Some(game) => {
                            let (v3, r) = set_current_spec(v2, Some(game));
                            (saved(v3), r->0)
                        },
                        None => (
                            saved(ClassicView { weights: remove_key(v1.weights, name), ..v2 }),
                            name + " has won the raffle!"@,
                        ),
                    }
                },
                None => (saved(v1), "Error trying to finish the raffle"@),
            }
        },
    }
}

/// The raffle can be finished whatever the draw gives: every entry has a
/// saved weight that can grow, and the entries' weights add up within a
/// `u32`.
pub open spec fn raffle_can_finish(v: ClassicView) -> bool {
    match v.raffle {
        Some(j) => {
            &&& weight_sum(raffle_weights_of(j)) <= u32::MAX
            &&& forall|i: int|
                0 <= i < j.len() ==> ((#[trigger] lookup(v.weights, j[i].0)) matches Some(x) && x < u32::MAX)
        },
        None => true,
    }
}

/// The reply to a chat message from `sender`: the author being waited for
/// starts their game.
pub open spec fn check_message_spec(v: ClassicView, sender: Seq<char>) -> (ClassicView, Option<Seq<char>>) {
    match v.current {
        Some(g) => if v.waiting && g.0 == sender {
            (ClassicView { waiting: false, ..v }, Some(now_playing(g)))
        } else {
            (v, None)
        },
        None => (v, None),
    }
}

impl GameJamBot {
    /// Whether `game_link` may be submitted.
    pub fn check_link(&self, game_link: &str) -> (b: bool)
        ensures
            b == link_ok(self.config, game_link@),
    {
        match &self.config.link_start {
            Some(link_start) => starts_with(game_link, link_start.as_str()),
            None => true,
        }
    }

    /// Submits `game_link` for `sender_name`.
    pub fn submit(&mut self, game_link: String, sender_name: String) -> (r: Option<String>)
        requires
            old(self).wf(),
        ensures
            final(self).wf(),
            final(self).config == old(self).config,
            r matches Some(x) && (final(self)@, x@) == submit_spec(
                old(self)@,
                old(self).config,
                game_link@,
                sender_name@,
            ),
    {
        if !self.games_state.is_open {
            return Some("The queue is closed. You can not submit your game at the moment.".to_owned());
        }
        if !self.check_link(game_link.as_str()) {
            return Some(at_text(sender_name.as_str(), ", that link can not be submitted"));
        }
        match &self.games_state.current_game {
            Some(current) => {
                if str_eq(current.name.as_str(), game_link.as_str()) {
                    return Some(at_text(sender_name.as_str(), ", we are playing that game right now!"));
                }
            },
            None => {},
        }
        let ghost v = self@;
        let in_returned = any_named(&self.games_state.returned_queue, game_link.as_str());
        let in_games = any_named(&self.games_state.games_queue, game_link.as_str());
        proof {
            let q = v.returned + v.games;
            if in_returned {
                let i = choose|i: int| 0 <= i < v.returned.len() && (#[trigger] v.returned[i]).1 == game_link@;
                assert(q[i] == v.returned[i]);
            }
            if in_games {
                let i = choose|i: int| 0 <= i < v.games.len() && (#[trigger] v.games[i]).1 == game_link@;
                assert(q[v.returned.len() + i] == v.games[i]);
            }
            if has_name(q, game_link@) {
                let i = choose|i: int| 0 <= i < q.len() && (#[trigger] q[i]).1 == game_link@;
                if i < v.returned.len() {
                    assert(v.returned[i] == q[i]);
                } else {
                    assert(v.games[i - v.returned.len()] == q[i]);
                }
            }
        }
        if in_returned || in_games {
            return Some(at_text(sender_name.as_str(), ", that game has already been submitted."));
        }
        if any_named(&self.games_state.skipped, game_link.as_str()) {
            return Some(
                at_text(
                    sender_name.as_str(),
                    ", your game was skipped. You may return to the queue using !return command",
                ),
            );
        }
        if any_named(&self.played_games, game_link.as_str()) {
            return Some(at_text(sender_name.as_str(), ", we have already played that game."));
        }
        let reply = at_text(sender_name.as_str(), ", your game has been submitted!");
        let game = Game { author: sender_name, name: game_link };
        proof {
            lemma_games_of_push(self.games_state.games_queue@, game);
        }
        self.games_state.games_queue.push(game);
        self.update_sheets = true;
        Some(reply)
    }

    /// Starts a raffle.
    pub fn raffle_start(&mut self) -> (r: Option<String>)
        requires
            old(self).wf(),
        ensures
            final(self).wf(),
            final(self).config == old(self).config,
            r matches Some(x) && (final(self)@, x@) == raffle_start_spec(old(self)@),
    {
        self.games_state.raffle.mode = RaffleMode::Active { joined: LuckTable::new() };
        self.update_sheets = true;
        Some("The raffle has started! Type !join to join the raffle.".to_owned())
    }

    /// `sender_name` joins the running raffle at their saved weight.
    pub fn raffle_join(&mut self, sender_name: String) -> (r: Option<String>)
        requires
            old(self).wf(),
        ensures
            r is None,
            final(self).wf(),
            final(self).config == old(self).config,
            final(self)@ == raffle_join_spec(old(self)@, old(self).config, sender_name@),
    {
        let weight = self.games_state.raffle.viewers_weight.get_or_insert(
            sender_name.clone(),
            self.config.raffle_default_weight,
        );
        match &mut self.games_state.raffle.mode {
            RaffleMode::Active { joined } => {
                joined.insert(sender_name, weight);
            },
            RaffleMode::Inactive => {},
        }
        None
    }

    /// Calls off the raffle.
    pub fn raffle_undo(&mut self) -> (r: Option<String>)
        requires
            old(self).wf(),
        ensures
            final(self).wf(),
            final(self).config == old(self).config,
            r matches Some(x) && (final(self)@, x@) == raffle_undo_spec(old(self)@),
    {
        self.games_state.raffle.mode = RaffleMode::Inactive;
        self.update_sheets = true;
        Some("Raffle is now inactive".to_owned())
    }

    /// Finishes the raffle, `winner` being the index of the entry that the
    /// draw gave (none where the draw failed).
    pub fn raffle_finish_with(&mut self, winner: Option<usize>) -> (r: Option<String>)
        requires
            old(self).wf(),
            raffle_can_finish(old(self)@),
            winner_in_range(old(self)@, winner),
        ensures
            final(self).wf(),
            final(self).config == old(self).config,
            r matches Some(x) && (final(self)@, x@) == raffle_finish_with_spec(
                old(self)@,
                match winner {
                    Some(i) => Some(i as int),
                    None => None,
                },
            ),
    {
        let ghost v = self@;
        let mut mode = RaffleMode::Inactive;
        std::mem::swap(&mut mode, &mut self.games_state.raffle.mode);
        let joined = match mode {
            RaffleMode::Active { joined } => joined,
            RaffleMode::Inactive => {
                self.update_sheets = true;
                return Some("The raffle should be started first: !raffle".to_owned());
            },
        };
        proof {
            assert forall|i: int| 0 <= i < joined@.len() implies #[trigger] has_key(v.weights, joined@[i].0) by {
                assert(lookup(v.weights, joined@[i].0) matches Some(x) && x < u32::MAX);
            }
            assert(forall|i: int|
                0 <= i < joined@.len() ==> (#[trigger] lookup(v.weights, joined@[i].0))->0 < u32::MAX);
            lemma_bump(v.weights, joined@);
        }
        bump_weights(&mut self.games_state.raffle.viewers_weight, &joined);
        let reply = match winner {
            Some(i) => {
                let entries = joined.entries();
                let name = entries[i].0.clone();
                match self.remove_game(name.as_str()) {
                    Some(game) => {
                        let r = self.set_current(Some(game));
                        match r {
                            Some(x) => x,
                            None => String::new(),
                        }
                    },
                    None => {
                        self.games_state.raffle.viewers_weight.remove(name.as_str());
                        concat_text(name.as_str(), " has won the raffle!")
                    },
                }
            },
            None => "Error trying to finish the raffle".to_owned(),
        };
        self.update_sheets = true;
        Some(reply)
    }

    /// Finishes the raffle with a weighted draw among its entries (by
    /// `rand`): whatever the draw gives, the outcome is that of
    /// `raffle_finish_with` for a winner that the draw can give.
    pub fn raffle_finish(&mut self) -> (r: Option<String>)
        requires
            old(self).wf(),
            raffle_can_finish(old(self)@),
        ensures
            final(self).wf(),
            final(self).config == old(self).config,
            exists|w: Option<int>|
                possible_winner(
                    match old(self)@.raffle {
                        Some(j) => j,
                        None => Seq::empty(),
                    },
                    w,
                ) && finish_reply(final(self)@, r, #[trigger] raffle_finish_with_spec(old(self)@, w)),
    {
        let ghost joined = match self@.raffle {
            Some(j) => j,
            None => Seq::empty(),
        };
        let mut weights: Vec<(usize, u32)> = Vec::new();
        match &self.games_state.raffle.mode {
            RaffleMode::Active { joined } => {
                let entries = joined.entries();
                let mut i: usize = 0;
                while i < entries.len()
                    invariant
                        i <= entries@.len(),
                        entries@.len() == joined@.len(),
                        forall|k: int| 0 <= k < entries@.len() ==> (#[trigger] entries@[k]).1 == joined@[k].1,
                        weights@ =~= raffle_weights_of(joined@).take(i as int),
                    decreases entries@.len() - i,
                {
                    weights.push((i, entries[i].1));
                    i = i + 1;
                }
            },
            RaffleMode::Inactive => {},
        }
        proof {
            assert(weights@ =~= raffle_weights_of(joined));
        }
        let chosen = choose_weighted_entry(&weights);
        let winner = match chosen {
            Some(e) => Some(e.0),
            None => None,
        };
        proof {
            match chosen {
                Some(e) => {
                    let k = choose|k: int| 0 <= k < weights@.len() && weights@[k] == e && e.1 > 0;
                    assert(weights@[k] == raffle_weights_of(joined)[k]);
                },
                None => {
                    assert forall|k: int| 0 <= k < joined.len() implies joined[k].1 == 0 by {
                        assert(weights@[k] == raffle_weights_of(joined)[k]);
                    }
                },
            }
        }
        self.raffle_finish_with(winner)
    }

    /// Whether the raffle can be finished whatever the draw gives.
    pub fn raffle_ready(&self) -> (b: bool)
        ensures
            b == raffle_can_finish(self@),
    {
        let joined = match &self.games_state.raffle.mode {
            RaffleMode::Active { joined } => joined,
            RaffleMode::Inactive => {
                return true;
            },
        };
        let ghost j = joined@;
        let ghost ws = raffle_weights_of(j);
        let entries = joined.entries();
        let mut sum: u64 = 0;
        let mut i: usize = 0;
        proof {
            assert(ws.take(0) =~= Seq::<(usize, u32)>::empty());
        }
        while i < entries.len()
            invariant
                i <= entries@.len(),
                entries@.len() == j.len(),
                self@.raffle == Some(j),
                ws == raffle_weights_of(j),
                forall|k: int|
                    0 <= k < entries@.len() ==> (#[trigger] entries@[k]).0@ == j[k].0 && entries@[k].1 == j[k].1,
                sum == weight_sum(ws.take(i as int)),
                sum <= u32::MAX,
                forall|k: int|
                    0 <= k < i ==> ((#[trigger] lookup(self@.weights, j[k].0)) matches Some(x) && x < u32::MAX),
            decreases entries@.len() - i,
        {
            assert(ws.take(i + 1).drop_last() =~= ws.take(i as int));
            let w = entries[i].1;
            if sum + (w as u64) > 4294967295u64 {
                proof {
                    crate::gamejam::bot::lemma_weight_sum_prefix(ws, i + 1, ws.len() as int);
                    assert(ws.take(ws.len() as int) =~= ws);
                }
                return false;
            }
            sum = sum + (w as u64);
            match self.games_state.raffle.viewers_weight.get(entries[i].0.as_str()) {
                Some(x) => {
                    if x == u32::MAX {
                        return false;
                    }
                },
                None => {
                    return false;
                },
            }
            i = i + 1;
        }
        proof {
            assert(ws.take(ws.len() as int) =~= ws);
        }
        true
    }

    /// A chat message from `sender_name`: the author being waited for
    /// starts their game.
    pub fn check_message(&mut self, sender_name: &str) -> (r: Option<String>)
        requires
            old(self).wf(),
            old(self)@.waiting ==> old(self)@.current is Some,
        ensures
            final(self).wf(),
            final(self).config == old(self).config,
            (final(self)@, opt_text(r)) == check_message_spec(old(self)@, sender_name@),
    {
        if self.waiting {
            match &self.games_state.current_game {
                Some(game) => {
                    if str_eq(game.author.as_str(), sender_name) {
                        let mut reply = concat_text("Now playing ", game.name.as_str());
                        reply.append(" from @");
                        reply.append(game.author.as_str());
                        reply.append(". ");
                        self.waiting = false;
                        return Some(reply);
                    }
                },
                None => {},
            }
        }
        None
    }

    /// `elapsed_secs` seconds have passed since the wait began: where the
    /// time limit is reached, the game is skipped and the next one taken.
    pub fn update(&mut self, elapsed_secs: u64) -> (r: Option<String>)
        requires
            old(self).wf(),
        ensures
            final(self).wf(),
            final(self).config == old(self).config,
            (final(self)@, opt_text(r)) == if old(self)@.waiting && elapsed_secs
                >= old(self).config.response_time_limit->0 {
                skip_spec(ClassicView { waiting: false, ..old(self)@ }, old(self).config, true)
            } else {
                (old(self)@, None)
            },
    {
        if self.waiting {
            match self.config.response_time_limit {
                Some(limit) => {
                    if elapsed_secs >= limit {
                        self.waiting = false;
                        return self.skip(true);
                    }
                },
                None => {},
            }
        }
        None
    }
}

/// Adds one to the weight of each entry of `joined` in `weights`.
fn bump_weights(weights: &mut LuckTable, joined: &LuckTable)
    requires
        old(weights).wf(),
        joined.wf(),
        forall|i: int| 0 <= i < joined@.len() ==> #[trigger] has_key(old(weights)@, joined@[i].0),
        forall|i: int| 0 <= i < joined@.len() ==> (#[trigger] lookup(old(weights)@, joined@[i].0))->0 < u32::MAX,
    ensures
        final(weights).wf(),
        final(weights)@ == bump_all(old(weights)@, joined@),
{
    let entries = joined.entries();
    let ghost w0 = weights@;
    let ghost j = joined@;
    let mut i: usize = 0;
    proof {
        assert(j.take(0) =~= Seq::<(Seq<char>, u32)>::empty());
    }
    while i < entries.len()
        invariant
            i <= entries@.len(),
            entries@.len() == j.len(),
            j == joined@,
            keys_unique(j),
            forall|k: int| 0 <= k < entries@.len() ==> (#[trigger] entries@[k]).0@ == j[k].0,
            forall|k: int| 0 <= k < j.len() ==> #[trigger] has_key(w0, j[k].0),
            forall|k: int| 0 <= k < j.len() ==> (#[trigger] lookup(w0, j[k].0))->0 < u32::MAX,
            keys_unique(w0),
            weights.wf(),
            weights@ == bump_all(w0, j.take(i as int)),
        decreases entries@.len() - i,
    {
        let ghost t = j.take(i as int);
        proof {
            assert forall|k: int| 0 <= k < t.len() implies #[trigger] has_key(w0, t[k].0) by {
                assert(t[k] == j[k]);
            }
            assert forall|k: int| 0 <= k < t.len() implies (#[trigger] lookup(w0, t[k].0))->0 < u32::MAX by {
                assert(t[k] == j[k]);
            }
            assert forall|a: int, b: int| 0 <= a < b < t.len() implies #[trigger] t[a].0 != #[trigger] t[b].0 by {
                assert(t[a] == j[a] && t[b] == j[b]);
            }
            lemma_bump(w0, t);
            assert forall|k: int| 0 <= k < t.len() implies t[k].0 != j[i as int].0 by {
                assert(t[k] == j[k]);
            }
            assert(has_key(w0, j[i as int].0));
            crate::table::lemma_key_index(w0, j[i as int].0, 0);
            assert(j.take(i + 1).drop_last() =~= t);
            assert(j.take(i + 1).last() == j[i as int]);
        }
        weights.increment(entries[i].0.as_str());
        i = i + 1;
    }
    proof {
        assert(j.take(j.len() as int) =~= j);
    }
}


/// The games of `s` by another author than `a`, in order.
pub open spec fn others(s: Seq<GameV>, a: Seq<char>) -> Seq<GameV>
    decreases s.len(),
{
    if s.len() == 0 {
        Seq::empty()
    } else {
        let p = others(s.drop_last(), a);
        if s.last().0 != a {
            p.push(s.last())
        } else {
            p
        }
    }
}

/// `!return`: `sender`'s first skipped game goes to the end of the
/// returned games, and none of their games stays skipped.
pub open spec fn return_spec(v: ClassicView, sender: Seq<char>) -> (ClassicView, Option<Seq<char>>) {
    if !v.open {
        (v, Some("The queue is closed. You can not submit your game at the moment."@))
    } else {
        match by_author(v.skipped, sender, 0) {
            Some(i) => (
                saved(
                    ClassicView {
                        returned: v.returned.push(v.skipped[i]),
                        skipped: others(v.skipped, sender),
                        ..v
                    },
                ),
                Some("@"@ + sender + ", your game was returned to the front of the queue"@),
            ),
            None => (v, None),
        }
    }
}

/// `!cancel`: removing `author`'s game.
pub open spec fn cancel_spec(v: ClassicView, author: Seq<char>) -> (ClassicView, Seq<char>) {
    let (w, g) = remove_spec(v, author);
    (
        w,
        if g is Some {
            author + "'s game has been remove from the queue"@
        } else {
            "Couldn't find a game from "@ + author
        },
    )
}

/// `<k>) <name> from <author>. ` for the first `k` games.
pub open spec fn listing(order: Seq<GameV>, k: int) -> Seq<char>
    decreases k,
{
    if k <= 0 {
        Seq::empty()
    } else {
        listing(order, k - 1) + decimal(k as nat) + ") "@ + order[k - 1].1 + " from "@ + order[k - 1].0
            + ". "@
    }
}

/// The reply to `!queue` from `sender`, where the command is enabled.
pub open spec fn queue_spec(v: ClassicView, c: GameJamConfig, sender: Seq<char>) -> Option<Seq<char>> {
    if !c.enable_queue_command {
        None
    } else {
        let order = v.returned + v.games;
        let p1 = match by_author(order, sender, 0) {
            Some(p) => "@"@ + sender + ", your game is "@ + decimal((p + 1) as nat) + " in the queue. "@,
            None => if by_author(v.skipped, sender, 0) is Some {
                "@"@ + sender
                    + ", your game was skipped. You may return to the front of the queue using !return command. "@
            } else {
                match v.current {
                    Some(g) => if g.0 == sender {
                        "@"@ + sender + ", we are currently playing your game. "@
                    } else {
                        Seq::empty()
                    },
                    None => Seq::empty(),
                }
            },
        };
        let p2 = if order.len() == 0 {
            "The queue is empty"@
        } else {
            "Queued games: "@ + listing(order, if order.len() < 3 {
                order.len() as int
            } else {
                3
            }) + if order.len() > 3 {
                "And "@ + decimal((order.len() - 3) as nat) + " more"@
            } else {
                Seq::empty()
            }
        };
        Some(p1 + p2)
    }
}

/// The reply to `!current`.
pub open spec fn current_spec(v: ClassicView) -> Seq<char> {
    match v.current {
        Some(g) => "Current game is: "@ + g.1 + " from "@ + g.0,
        None => "Not playing any game at the moment"@,
    }
}

/// `!unskip`: the last skipped game is played; the current one goes to the
/// front of the returned games.
pub open spec fn unskip_spec(v: ClassicView) -> (ClassicView, Seq<char>) {
    if v.skipped.len() > 0 {
        let s = v.skipped.last();
        let v1 = ClassicView { skipped: v.skipped.drop_last(), waiting: false, ..v };
        let (v2, prefix) = match v1.current {
            Some(g) => (
                ClassicView { current: None, returned: seq![g] + v1.returned, ..v1 },
                "Current game has been put at the front of the queue. "@,
            ),
            None => (v1, Seq::<char>::empty()),
        };
        let (v3, r) = set_current_spec(v2, Some(s));
        (v3, prefix + r->0)
    } else {
        (v, "No game has been skipped yet"@)
    }
}

/// `!force`: the bot stops waiting for the author.
pub open spec fn force_spec(v: ClassicView) -> (ClassicView, Seq<char>) {
    if v.waiting {
        let g = v.current->0;
        (ClassicView { waiting: false, ..v }, "Now playing "@ + g.1 + " from @"@ + g.0)
    } else {
        (v, "Not waiting for response at the moment"@)
    }
}

/// `!skip all`: every queued game, in playing order, goes to the end of the
/// skipped list.
pub open spec fn skip_all_spec(v: ClassicView) -> (ClassicView, Seq<char>) {
    (
        saved(
            ClassicView {
                skipped: v.skipped + v.returned + v.games,
                returned: Seq::empty(),
                games: Seq::empty(),
                ..v
            },
        ),
        "All games from the queue are moved to the skipped list."@,
    )
}

pub proof fn lemma_games_of_append(a: Seq<Game>, b: Seq<Game>)
    ensures
        games_of(a + b) == games_of(a) + games_of(b),
{
    assert(games_of(a + b) =~= games_of(a) + games_of(b));
}

/// The games by another author than `author`.
fn keep_others(games: &Vec<Game>, author: &str) -> (r: Vec<Game>)
    ensures
        games_of(r@) == others(games_of(games@), author@),
{
    let ghost s = games_of(games@);
    let mut r: Vec<Game> = Vec::new();
    let mut i: usize = 0;
    while i < games.len()
        invariant
            i <= games@.len(),
            s == games_of(games@),
            games_of(r@) == others(s.take(i as int), author@),
        decreases games@.len() - i,
    {
        proof {
            assert(s.take(i + 1).drop_last() =~= s.take(i as int));
            assert(s.take(i + 1).last() == games@[i as int]@);
        }
        if !str_eq(games[i].author.as_str(), author) {
            let g = games[i].duplicate();
            proof {
                lemma_games_of_push(r@, g);
            }
            r.push(g);
        }
        i = i + 1;
    }
    proof {
        assert(s.take(s.len() as int) =~= s);
    }
    r
}

impl GameJamBot {
    /// `!return`: brings `sender_name`'s skipped game back to the front of
    /// the queue.
    pub fn return_game(&mut self, sender_name: &str) -> (r: Option<String>)
        requires
            old(self).wf(),
        ensures
            final(self).wf(),
            final(self).config == old(self).config,
            (final(self)@, opt_text(r)) == return_spec(old(self)@, sender_name@),
    {
        if !self.games_state.is_open {
            return Some("The queue is closed. You can not submit your game at the moment.".to_owned());
        }
        proof {
            lemma_by_author(self@.skipped, sender_name@, 0);
        }
        match position_by_author(&self.games_state.skipped, sender_name) {
            Some(i) => {
                let g = self.games_state.skipped[i].duplicate();
                proof {
                    lemma_games_of_push(self.games_state.returned_queue@, g);
                }
                self.games_state.returned_queue.push(g);
                let kept = keep_others(&self.games_state.skipped, sender_name);
                self.games_state.skipped = kept;
                self.update_sheets = true;
                Some(at_text(sender_name, ", your game was returned to the front of the queue"))
            },
            None => None,
        }
    }

    /// `!cancel`: removes `author_name`'s game.
    pub fn cancel(&mut self, author_name: &str) -> (r: Option<String>)
        requires
            old(self).wf(),
        ensures
            final(self).wf(),
            final(self).config == old(self).config,
            r matches Some(x) && (final(self)@, x@) == cancel_spec(old(self)@, author_name@),
    {
        match self.remove_game(author_name) {
            Some(_) => Some(concat_text(author_name, "'s game has been remove from the queue")),
            None => Some(concat_text("Couldn't find a game from ", author_name)),
        }
    }

    /// `!queue`: where `sender_name`'s game stands and the first games.
    pub fn queue(&self, sender_name: &str) -> (r: Option<String>)
        ensures
            opt_text(r) == queue_spec(self@, self.config, sender_name@),
    {
        if !self.config.enable_queue_command {
            return None;
        }
        let queue = self.games_state.queue();
        let n = queue.len();
        let ghost order = self@.returned + self@.games;
        proof {
            assert forall|k: int| 0 <= k < n implies (*queue@[k])@ == order[k] by {
                if k < self@.returned.len() {
                    assert(order[k] == self@.returned[k]);
                    assert((self.games_state.returned_queue@ + self.games_state.games_queue@)[k]
                        == self.games_state.returned_queue@[k]);
                } else {
                    assert(order[k] == self@.games[k - self@.returned.len()]);
                    assert((self.games_state.returned_queue@ + self.games_state.games_queue@)[k]
                        == self.games_state.games_queue@[k - self@.returned.len()]);
                }
            }
            lemma_by_author(order, sender_name@, 0);
        }
        let mut reply = String::new();
        let mut i: usize = 0;
        let mut found: Option<usize> = None;
        while i < n
            invariant_except_break
                found is None,
            invariant
                n == queue@.len(),
                n == order.len(),
                i <= n,
                forall|k: int| 0 <= k < n ==> (*#[trigger] queue@[k])@ == order[k],
                by_author(order, sender_name@, 0) == by_author(order, sender_name@, i as int),
            ensures
                match found {
                    Some(p) => by_author(order, sender_name@, 0) == Some(p as int) && p < n,
                    None => by_author(order, sender_name@, 0) is None,
                },
            decreases n - i,
        {
            if str_eq(queue[i].author.as_str(), sender_name) {
                found = Some(i);
                break;
            }
            i = i + 1;
        }
        match found {
            Some(p) => {
                reply.append(at_text(sender_name, ", your game is ").as_str());
                reply.append(u64_to_string((p + 1) as u64).as_str());
                reply.append(" in the queue. ");
            },
            None => {
                if position_by_author(&self.games_state.skipped, sender_name).is_some() {
                    reply.append(
                        at_text(
                            sender_name,
                            ", your game was skipped. You may return to the front of the queue using !return command. ",
                        ).as_str(),
                    );
                } else {
                    match &self.games_state.current_game {
                        Some(g) => {
                            if str_eq(g.author.as_str(), sender_name) {
                                reply.append(at_text(sender_name, ", we are currently playing your game. ").as_str());
                            }
                        },
                        None => {},
                    }
                }
            },
        }
        if n == 0 {
            reply.append("The queue is empty");
        } else {
            reply.append("Queued games: ");
            let shown: usize = if n < 3 {
                n
            } else {
                3
            };
            let ghost before = reply@;
            let mut k: usize = 0;
            proof {
                assert(before + listing(order, 0) =~= before);
            }
            while k < shown
                invariant
                    k <= shown,
                    shown <= n,
                    shown <= 3,
                    n == queue@.len(),
                    n == order.len(),
                    forall|m: int| 0 <= m < n ==> (*#[trigger] queue@[m])@ == order[m],
                    reply@ == before + listing(order, k as int),
                decreases shown - k,
            {
                let g = queue[k];
                reply.append(u64_to_string((k + 1) as u64).as_str());
                reply.append(") ");
                reply.append(g.name.as_str());
                reply.append(" from ");
                reply.append(g.author.as_str());
                reply.append(". ");
                proof {
                    assert((*queue@[k as int])@ == order[k as int]);
                    assert(reply@ =~= before + listing(order, k + 1));
                }
                k = k + 1;
            }
            if n > 3 {
                reply.append("And ");
                reply.append(u64_to_string((n - 3) as u64).as_str());
                reply.append(" more");
            }
        }
        Some(reply)
    }

    /// `!current`: the game being played.
    pub fn current(&self) -> (r: Option<String>)
        ensures
            r matches Some(x) && x@ == current_spec(self@),
    {
        match &self.games_state.current_game {
            Some(g) => {
                let mut r = concat_text("Current game is: ", g.name.as_str());
                r.append(" from ");
                r.append(g.author.as_str());
                Some(r)
            },
            None => Some("Not playing any game at the moment".to_owned()),
        }
    }

    /// `!unskip`: plays the last skipped game.
    pub fn unskip(&mut self) -> (r: Option<String>)
        requires
            old(self).wf(),
        ensures
            final(self).wf(),
            final(self).config == old(self).config,
            r matches Some(x) && (final(self)@, x@) == unskip_spec(old(self)@),
    {
        match self.games_state.skipped.pop() {
            Some(skipped) => {
                proof {
                    assert(games_of(self.games_state.skipped@) =~= games_of(old(self).games_state.skipped@).drop_last());
                }
                self.waiting = false;
                let mut reply = String::new();
                let mut current: Option<Game> = None;
                std::mem::swap(&mut current, &mut self.games_state.current_game);
                match current {
                    Some(c) => {
                        proof {
                            lemma_games_of_insert_front(self.games_state.returned_queue@, c);
                        }
                        self.games_state.returned_queue.insert(0, c);
                        reply.append("Current game has been put at the front of the queue. ");
                    },
                    None => {},
                }
                match self.set_current(Some(skipped)) {
                    Some(set_reply) => reply.append(set_reply.as_str()),
                    None => {},
                }
                Some(reply)
            },
            None => Some("No game has been skipped yet".to_owned()),
        }
    }

    /// `!stop`: stops playing; the game goes to the played list.
    pub fn stop(&mut self) -> (r: Option<String>)
        requires
            old(self).wf(),
        ensures
            final(self).wf(),
            final(self).config == old(self).config,
            final(self)@ == set_current_spec(ClassicView { waiting: false, ..old(self)@ }, None).0,
            r matches Some(x) && x@ == "Current game set to None"@,
    {
        self.waiting = false;
        self.set_current(None);
        Some("Current game set to None".to_owned())
    }

    /// `!skip all`: moves every queued game to the skipped list.
    pub fn skip_all(&mut self) -> (r: Option<String>)
        requires
            old(self).wf(),
        ensures
            final(self).wf(),
            final(self).config == old(self).config,
            r matches Some(x) && (final(self)@, x@) == skip_all_spec(old(self)@),
    {
        let ghost v = self@;
        let mut returned: Vec<Game> = Vec::new();
        std::mem::swap(&mut returned, &mut self.games_state.returned_queue);
        let mut games: Vec<Game> = Vec::new();
        std::mem::swap(&mut games, &mut self.games_state.games_queue);
        let ghost s0 = self.games_state.skipped@;
        let ghost r0 = returned@;
        let ghost g0 = games@;
        self.games_state.skipped.append(&mut returned);
        self.games_state.skipped.append(&mut games);
        self.update_sheets = true;
        proof {
            lemma_games_of_append(s0, r0);
            lemma_games_of_append(s0 + r0, g0);
            assert(games_of(self.games_state.returned_queue@) =~= Seq::<GameV>::empty());
            assert(games_of(self.games_state.games_queue@) =~= Seq::<GameV>::empty());
            assert(self@ =~= skip_all_spec(v).0);
        }
        Some("All games from the queue are moved to the skipped list.".to_owned())
    }

    /// `!clear`: empties the queue of submitted games.
    pub fn clear(&mut self) -> (r: Option<String>)
        requires
            old(self).wf(),
        ensures
            final(self).wf(),
            final(self).config == old(self).config,
            final(self)@ == saved(ClassicView { games: Seq::empty(), ..old(self)@ }),
            r matches Some(x) && x@ == "The queue has been cleared"@,
    {
        self.games_state.games_queue.clear();
        self.update_sheets = true;
        proof {
            assert(self@ =~= saved(ClassicView { games: Seq::empty(), ..old(self)@ }));
        }
        Some("The queue has been cleared".to_owned())
    }

    /// `!force`: stops waiting for the author.
    pub fn force(&mut self) -> (r: Option<String>)
        requires
            old(self).wf(),
            old(self)@.waiting ==> old(self)@.current is Some,
        ensures
            final(self).wf(),
            final(self).config == old(self).config,
            r matches Some(x) && (final(self)@, x@) == force_spec(old(self)@),
    {
        if self.waiting {
            self.waiting = false;
            match &self.games_state.current_game {
                Some(g) => {
                    let mut r = concat_text("Now playing ", g.name.as_str());
                    r.append(" from @");
                    r.append(g.author.as_str());
                    Some(r)
                },
                None => None,
            }
        } else {
            Some("Not waiting for response at the moment".to_owned())
        }
    }

    /// `!close` and `!open`: closes or opens the queue.
    pub fn set_open(&mut self, open: bool) -> (r: Option<String>)
        requires
            old(self).wf(),
        ensures
            final(self).wf(),
            final(self).config == old(self).config,
            final(self)@ == saved(ClassicView { open, ..old(self)@ }),
            r matches Some(x) && x@ == if open {
                "The queue is now open"@
            } else {
                "The queue is now closed"@
            },
    {
        self.games_state.is_open = open;
        self.update_sheets = true;
        if open {
            Some("The queue is now open".to_owned())
        } else {
            Some("The queue is now closed".to_owned())
        }
    }
}

} // verus!
