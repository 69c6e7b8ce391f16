//! The Ludum Dare bot: viewers submit games by name, the streamer plays
//! them in queue order and waits for the author to answer.

use vstd::prelude::*;
use crate::text::{concat_text, reply_is, str_eq};
use vstd::string::StringExecFns;

verus! {

/// How the Ludum Dare bot runs.
pub struct LDConfig {
    /// Seconds an author has to answer.
    pub response_time_limit: Option<u64>,
    pub link_start: Option<String>,
    pub allow_direct_link_submit: bool,
}

/// A submitted game; its name is the link it was submitted with.
pub struct Game {
    pub author: String,
    pub name: String,
}

impl View for Game {
    type V = (Seq<char>, Seq<char>);

    open spec fn view(&self) -> (Seq<char>, Seq<char>) {
        (self.author@, self.name@)
    }
}

impl Game {
    /// A copy of this game.
    pub fn duplicate(&self) -> (r: Game)
        ensures
            r@ == self@,
    {
        Game { author: self.author.clone(), name: self.name.clone() }
    }
}

/// The queue and the game being played.
pub struct GamesState {
    pub is_open: bool,
    pub current_game: Option<Game>,
    pub returned_queue: Vec<Game>,
    pub games_queue: Vec<Game>,
    pub skipped: Vec<Game>,
}

impl GamesState {
    /// An open, empty queue.
    pub fn new() -> (r: GamesState)
        ensures
            r.is_open,
            r.current_game is None,
            r.returned_queue@.len() == 0,
            r.games_queue@.len() == 0,
            r.skipped@.len() == 0,
    {
        GamesState {
            is_open: true,
            current_game: None,
            returned_queue: Vec::new(),
            games_queue: Vec::new(),
            skipped: Vec::new(),
        }
    }

    /// The queued games in playing order: the returned ones, then the
    /// others.
    pub fn queue(&self) -> (r: Vec<&Game>)
        ensures
            r@.len() == self.returned_queue@.len() + self.games_queue@.len(),
            forall|i: int| 0 <= i < r@.len() ==> *#[trigger] r@[i] == (self.returned_queue@ + self.games_queue@)[i],
    {
        let mut r: Vec<&Game> = Vec::new();
        let mut i: usize = 0;
        while i < self.returned_queue.len()
            invariant
                i <= self.returned_queue@.len(),
                r@.len() == i,
                forall|k: int| 0 <= k < i ==> *#[trigger] r@[k] == self.returned_queue@[k],
            decreases self.returned_queue@.len() - i,
        {
            r.push(&self.returned_queue[i]);
            i = i + 1;
        }
        let mut j: usize = 0;
        while j < self.games_queue.len()
            invariant
                j <= self.games_queue@.len(),
                r@.len() == self.returned_queue@.len() + j,
                forall|k: int|
                    0 <= k < r@.len() ==> *#[trigger] r@[k] == (self.returned_queue@ + self.games_queue@)[k],
            decreases self.games_queue@.len() - j,
        {
            r.push(&self.games_queue[j]);
            j = j + 1;
        }
        r
    }
}

/// The Ludum Dare bot.
pub struct LDBot {
    pub channel_login: String,
    pub save_file: String,
    pub config: LDConfig,
    pub games_state: GamesState,
    /// The bot waits for the current game's author to answer.
    pub waiting: bool,
}

/// The bot is consistent: it only waits while a game is current and a
/// time limit is set.
pub open spec fn ld_wf(b: LDBot) -> bool {
    b.waiting ==> b.games_state.current_game is Some && b.config.response_time_limit is Some
}

impl LDBot {
    /// The bot's name.
    pub fn name() -> (r: &'static str)
        ensures
            r@ == "LDBot"@,
    {
        "LDBot"
    }

    /// A bot for `channel` with an open, empty queue.
    pub fn new(channel: &str, config: LDConfig) -> (r: LDBot)
        ensures
            r.channel_login@ == channel@,
            r.save_file@ == "config/ludum_dare/ld-nertsalbot.json"@,
            r.config == config,
            !r.waiting,
            r.games_state.is_open && r.games_state.current_game is None,
            r.games_state.returned_queue@.len() == 0 && r.games_state.games_queue@.len() == 0,
            r.games_state.skipped@.len() == 0,
    {
        LDBot {
            channel_login: channel.to_owned(),
            save_file: "config/ludum_dare/ld-nertsalbot.json".to_owned(),
            config,
            games_state: GamesState::new(),
            waiting: false,
        }
    }

    /// A chat message from `sender_name`: the author being waited for
    /// starts their game.
    pub fn check_message(&mut self, sender_name: &str) -> (r: Option<String>)
        requires
            ld_wf(*old(self)),
        ensures
            ld_wf(*final(self)),
            final(self).games_state == old(self).games_state,
            final(self).config == old(self).config,
            match old(self).games_state.current_game {
                Some(g) => if old(self).waiting && g.author@ == sender_name@ {
                    !final(self).waiting && reply_is(r, "Now playing "@ + g.name@ + " from @"@ + g.author@ + ". "@)
                } else {
                    final(self).waiting == old(self).waiting && r is None
                },
                None => final(self).waiting == old(self).waiting && r is None,
            },
    {
        if self.waiting {
            match &self.games_state.current_game {
                Some(game) => {
                    if str_eq(game.author.as_str(), sender_name) {
                        let mut reply = concat_text("Now playing ", game.name.as_str());
                        reply.append(" from @");
                        reply.append(game.author.as_str());
                        reply.append(". ");
                        self.waiting = false;
                        return Some(reply);
                    }
                },
                None => {},
            }
        }
        None
    }

    /// `elapsed_secs` seconds have passed since the wait began: where they
    /// reach the time limit, the wait ends and the game is to be skipped
    /// (the result says so).
    pub fn update(&mut self, elapsed_secs: u64) -> (r: bool)
        requires
            ld_wf(*old(self)),
        ensures
            ld_wf(*final(self)),
            final(self).games_state == old(self).games_state,
            final(self).config == old(self).config,
            r == (old(self).waiting && elapsed_secs >= old(self).config.response_time_limit->0),
            final(self).waiting == (old(self).waiting && !r),
    {
        if self.waiting {
            match self.config.response_time_limit {
                Some(limit) => {
                    if elapsed_secs >= limit {
                        self.waiting = false;
                        return true;
                    }
                },
                None => {},
            }
        }
        false
    }
}

} // verus!
