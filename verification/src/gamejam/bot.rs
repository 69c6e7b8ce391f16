//! The game-jam bot's state and the rules of its commands.

use vstd::prelude::*;
use crate::table::{
    has_key, keys_unique, lemma_has_key, lemma_key_index, lemma_bump, lemma_upsert_keys, lemma_upsert_unique, lookup,
    remove_key, upsert, LuckTable,
};
use crate::gamejam::queue::{queue_next, without, QueueView};
use crate::gamejam::submission::{
    first_match, lemma_first_match, has_author, link_text, passes, name_from_link_spec, name_text, FilterView,
    GameFilter, GameType, GameView, Submission,
};
use crate::gamejam::submissions::{
    game_at, locate, remove_spec, set_at, slot_type, Slot, Submissions, SubmissionsView,
};
use crate::random::{choose_weighted_entry, weight_sum};
use crate::text::{concat_text, decimal, has_prefix, starts_with, u64_to_string};
use vstd::string::StringExecFns;

verus! {

/// Where a game that comes back from the skipped list goes.
#[derive(Clone, Copy, PartialEq, Eq, Debug, Structural)]
pub enum ReturnMode {
    /// After the other submitted games.
    Back,
    /// After the other returned games, before the submitted ones.
    Front,
}

/// The spreadsheet that shows the queue.
pub struct GoogleSheetConfig {
    pub sheet_id: String,
    pub display_luck: bool,
}

/// How the bot runs the jam.
pub struct GameJamConfig {
    pub multiple_submissions: bool,
    pub queue_mode: bool,
    pub return_mode: ReturnMode,
    pub auto_return: bool,
    /// Seconds an author has to answer before their game is skipped.
    pub response_time_limit: Option<u64>,
    pub link_start: Option<String>,
    pub allow_direct_link_submit: bool,
    pub allow_multiple_authors_submit: bool,
    pub raffle_default_weight: u32,
    pub google_sheet_config: Option<GoogleSheetConfig>,
}

/// What the bot is doing.
pub enum GameJamState {
    Idle,
    /// Waiting for an author to answer; `time_limit` counts milliseconds.
    Waiting { time_limit: u128, game: Submission },
    Playing { game: Submission },
    /// A raffle in progress: the links of the games that joined, with
    /// their weights.
    Raffle { joined: LuckTable },
}

/// The model of the bot's activity.
pub enum StateView {
    Idle,
    Waiting { time_limit: u128, game: GameView },
    Playing { game: GameView },
    Raffle { joined: Seq<(Seq<char>, u32)> },
}

impl View for GameJamState {
    type V = StateView;

    open spec fn view(&self) -> StateView {
        match self {
            GameJamState::Idle => StateView::Idle,
            GameJamState::Waiting { time_limit, game } => StateView::Waiting {
                time_limit: *time_limit,
                game: game@,
            },
            GameJamState::Playing { game } => StateView::Playing { game: game@ },
            GameJamState::Raffle { joined } => StateView::Raffle { joined: joined@ },
        }
    }
}

/// The game being played or waited for.
pub open spec fn current_of(s: StateView) -> Option<GameView> {
    match s {
        StateView::Waiting { game, .. } => Some(game),
        StateView::Playing { game } => Some(game),
        _ => None,
    }
}

impl GameJamState {
    /// The game being played or waited for.
    pub fn current(&self) -> (r: Option<&Submission>)
        ensures
            match current_of(self@) {
                Some(g) => r matches Some(x) && x@ == g,
                None => r is None,
            },
    {
        match self {
            GameJamState::Playing { game } => Some(game),
            GameJamState::Waiting { game, .. } => Some(game),
            _ => None,
        }
    }

    /// The game being played or waited for, to be changed in place.
    pub fn current_mut(&mut self) -> (r: Option<&mut Submission>)
        ensures
            match current_of(old(self)@) {
                Some(g) => r matches Some(x) && (*x)@ == g && final(self)@ == set_current_game(
                    old(self)@,
                    (*final(x))@,
                ),
                None => r is None && final(self)@ == old(self)@,
            },
    {
        match self {
            GameJamState::Playing { game } => Some(game),
            GameJamState::Waiting { game, .. } => Some(game),
            _ => None,
        }
    }
}

/// The activity with its current game replaced by `g`.
pub open spec fn set_current_game(s: StateView, g: GameView) -> StateView {
    match s {
        StateView::Waiting { time_limit, .. } => StateView::Waiting { time_limit, game: g },
        StateView::Playing { .. } => StateView::Playing { game: g },
        _ => s,
    }
}

/// The bot's persistent data.
pub struct BotState {
    pub current_state: GameJamState,
    pub submissions: Submissions,
    pub is_queue_open: bool,
    /// Raffle weights by game link.
    pub raffle_weights: LuckTable,
}

/// The game-jam bot.
pub struct GamejamBot {
    pub config: GameJamConfig,
    pub state: BotState,
    /// The state has changed and is to be saved and shown in the sheet.
    pub update_sheets_queued: bool,
    /// The list of played games has changed and is to be saved.
    pub played_games_changed: bool,
    /// The status line that the bot last set.
    pub status: Option<String>,
}

/// The model of the bot.
pub struct JamView {
    pub state: StateView,
    pub subs: SubmissionsView,
    pub open: bool,
    pub weights: Seq<(Seq<char>, u32)>,
    pub saved: bool,
    pub played_saved: bool,
    pub status: Option<Seq<char>>,
}

/// Every game in the list has an author.
pub open spec fn authored(s: Seq<GameView>) -> bool {
    forall|i: int| 0 <= i < s.len() ==> (#[trigger] s[i]).authors.len() > 0
}

/// What the bot's state has to hold: every game has a main author, no
/// raffle weight or entry is there twice, and every raffle entry has a
/// weight.
pub open spec fn jam_wf(v: JamView) -> bool {
    &&& (current_of(v.state) matches Some(g) ==> g.authors.len() > 0)
    &&& authored(v.subs.queue.returned)
    &&& authored(v.subs.queue.games)
    &&& authored(v.subs.skipped)
    &&& authored(v.subs.played)
    &&& keys_unique(v.weights)
    &&& (v.state matches StateView::Raffle { joined } ==> keys_unique(joined) && forall|i: int|
        0 <= i < joined.len() ==> has_key(v.weights, #[trigger] joined[i].0))
}

/// An optional text as a model.
pub open spec fn opt_text(r: Option<String>) -> Option<Seq<char>> {
    match r {
        Some(s) => Some(s@),
        None => None,
    }
}

/// An optional game as a model.
pub open spec fn opt_game(g: Option<Submission>) -> Option<GameView> {
    match g {
        Some(x) => Some(x@),
        None => None,
    }
}

/// `@<name>`.
pub open spec fn at(name: Seq<char>) -> Seq<char> {
    "@"@ + name
}

/// The state marked as to be saved.
pub open spec fn saved(v: JamView) -> JamView {
    JamView { saved: true, ..v }
}

/// The bot after the game being played, if any, has gone to the played
/// list.
pub open spec fn retire_current(v: JamView) -> JamView {
    match current_of(v.state) {
        Some(g) => JamView {
            subs: SubmissionsView { played: v.subs.played.push(g), ..v.subs },
            played_saved: true,
            ..v
        },
        None => v,
    }
}

/// Playing `game` (or nothing): the current game goes to the played list,
/// the new one loses its raffle weight.
pub open spec fn set_current_spec(v: JamView, game: Option<GameView>) -> (JamView, Option<Seq<char>>) {
    let v1 = retire_current(v);
    match game {
        Some(g) => (
            JamView {
                state: StateView::Playing { game: g },
                weights: remove_key(v1.weights, g.link),
                status: Some("Playing "@ + name_text(g, true)),
                saved: true,
                ..v1
            },
            Some("Now playing "@ + link_text(g, true) + ". "@),
        ),
        None => (
            JamView { state: StateView::Idle, status: Some("Not playing a game"@), saved: true, ..v1 },
            None,
        ),
    }
}


/// Where a game stands: being played, or among the submissions.
pub enum Loc {
    Current,
    Sub(Slot),
}

/// The first game that passes `f`, looking at the current game first.
pub open spec fn find_spec(v: JamView, f: FilterView) -> Option<(Loc, GameType)> {
    let sub = match locate(v.subs, f) {
        Some(s) => Some((Loc::Sub(s), slot_type(s))),
        None => None,
    };
    match current_of(v.state) {
        Some(g) => if passes(f, g) {
            Some((Loc::Current, GameType::Current))
        } else {
            sub
        },
        None => sub,
    }
}

/// The location that `find_spec` gives.
pub open spec fn found_loc(v: JamView, f: FilterView) -> Loc {
    match find_spec(v, f) {
        Some((l, _)) => l,
        None => Loc::Current,
    }
}

/// The game at a location.
pub open spec fn game_at_loc(v: JamView, l: Loc) -> GameView {
    match l {
        Loc::Current => current_of(v.state)->0,
        Loc::Sub(s) => game_at(v.subs, s),
    }
}

/// The bot with the game at a location replaced by `g`.
pub open spec fn set_loc(v: JamView, l: Loc, g: GameView) -> JamView {
    match l {
        Loc::Current => JamView { state: set_current_game(v.state, g), ..v },
        Loc::Sub(s) => JamView { subs: set_at(v.subs, s, g), ..v },
    }
}

/// The reply to removing `author`'s game: the first game whose main author
/// is `author` leaves the queue or the skipped list.
pub open spec fn remove_response_spec(v: JamView, author: Seq<char>) -> (JamView, Option<Seq<char>>) {
    let (subs, g) = remove_spec(v.subs, FilterView::MainAuthor(author));
    (
        JamView { subs, ..v },
        Some(
            if g is Some {
                author + "'s game has been removed from the queue"@
            } else {
                "Couldn't find a game from "@ + author
            },
        ),
    )
}

/// Taking the next game: the first of `author`'s games in the queue or the
/// skipped list, else the next queued game; the game played until then goes
/// to the played list; with a response time limit and `confirm`, the bot
/// first waits for the author.
pub open spec fn next_spec(v: JamView, c: GameJamConfig, author: Option<Seq<char>>, confirm: bool) -> (
    JamView,
    Option<Seq<char>>,
) {
    let (subs, found, err) = match author {
        Some(a) => {
            let (s, g) = remove_spec(v.subs, FilterView::Author(a));
            (s, g, "Couldn't find a game from "@ + a)
        },
        None => {
            let (q, g) = queue_next(v.subs.queue);
            (SubmissionsView { queue: q, ..v.subs }, g, "The queue is empty. !submit <your game>. "@)
        },
    };
    let v1 = JamView { subs, ..v };
    let (v2, reply) = match found {
        Some(g) => if confirm && c.response_time_limit is Some {
            let t = c.response_time_limit->0;
            (
                JamView {
                    state: StateView::Waiting { time_limit: (t * 1000) as u128, game: g },
                    status: Some("Waiting for response from "@ + g.authors[0]),
                    ..set_current_spec(v1, None).0
                },
                Some(
                    at(g.authors[0]) + ", we are about to play your game. Please reply in "@ + decimal(
                        t as nat,
                    ) + " seconds."@,
                ),
            )
        } else {
            set_current_spec(v1, Some(g))
        },
        None => (set_current_spec(v1, None).0, Some(err)),
    };
    (saved(v2), reply)
}

/// Skipping the current game: it goes to the skipped list; with
/// `auto_next` the next game follows.
pub open spec fn skip_spec(v: JamView, c: GameJamConfig, auto_next: bool) -> (JamView, Option<Seq<char>>) {
    match current_of(v.state) {
        Some(g) => {
            let v1 = JamView {
                state: StateView::Idle,
                subs: SubmissionsView { skipped: v.subs.skipped.push(g), ..v.subs },
                ..v
            };
            if auto_next {
                let (v2, r) = next_spec(v1, c, None, true);
                (
                    v2,
                    Some(
                        match r {
                            Some(x) => x,
                            None => "Game has been skipped."@,
                        },
                    ),
                )
            } else {
                (saved(v1), Some("Game has been skipped."@))
            }
        },
        None => (v, Some("Not playing any game at the moment."@)),
    }
}

/// Moving the whole queue, in playing order, to the end of the skipped
/// list.
pub open spec fn skip_all_spec(v: JamView) -> (JamView, Option<Seq<char>>) {
    (
        saved(
            JamView {
                subs: SubmissionsView {
                    queue: QueueView { returned: Seq::empty(), games: Seq::empty() },
                    skipped: v.subs.skipped + v.subs.queue.order(),
                    ..v.subs
                },
                ..v
            },
        ),
        Some("All games from the queue are moved to the skipped list."@),
    )
}


/// Removing a game keeps every list authored.
pub proof fn lemma_remove_keeps_authored(v: SubmissionsView, f: FilterView)
    requires
        authored(v.queue.returned),
        authored(v.queue.games),
        authored(v.skipped),
    ensures
        authored(remove_spec(v, f).0.queue.returned),
        authored(remove_spec(v, f).0.queue.games),
        authored(remove_spec(v, f).0.skipped),
        remove_spec(v, f).0.played == v.played,
        remove_spec(v, f).1 matches Some(g) ==> g.authors.len() > 0,
{
    crate::gamejam::submission::lemma_first_match(v.queue.order(), f, 0);
    crate::gamejam::submission::lemma_first_match(v.skipped, f, 0);
    match first_match(v.queue.order(), f, 0) {
        Some(i) => {
            if i < v.queue.returned.len() {
                assert(v.queue.order()[i] == v.queue.returned[i]);
            } else {
                assert(v.queue.order()[i] == v.queue.games[i - v.queue.returned.len()]);
            }
            lemma_without_authored(v.queue.returned, i);
            lemma_without_authored(v.queue.games, i - v.queue.returned.len());
        },
        None => {
            match first_match(v.skipped, f, 0) {
                Some(i) => lemma_without_authored(v.skipped, i),
                None => {},
            }
        },
    }
}

pub proof fn lemma_without_authored(s: Seq<GameView>, i: int)
    requires
        authored(s),
    ensures
        0 <= i < s.len() ==> authored(without(s, i)),
{
    if 0 <= i < s.len() {
        assert forall|k: int| 0 <= k < without(s, i).len() implies (#[trigger] without(s, i)[k]).authors.len()
            > 0 by {
            if k < i {
                assert(without(s, i)[k] == s[k]);
            } else {
                assert(without(s, i)[k] == s[k + 1]);
            }
        }
    }
}

pub proof fn lemma_authored_add(s: Seq<GameView>, g: GameView)
    requires
        authored(s),
        g.authors.len() > 0,
    ensures
        authored(seq![g] + s),
        authored(s.push(g)),
{
    assert forall|k: int| 0 <= k < (seq![g] + s).len() implies (#[trigger] (seq![g] + s)[k]).authors.len()
        > 0 by {
        if k > 0 {
            assert((seq![g] + s)[k] == s[k - 1]);
        }
    }
    assert forall|k: int| 0 <= k < s.push(g).len() implies (#[trigger] s.push(g)[k]).authors.len() > 0 by {
        if k < s.len() {
            assert(s.push(g)[k] == s[k]);
        }
    }
}


/// Changing a game that `find_spec` located keeps the bot's invariant,
/// where the game keeps an author.
pub proof fn lemma_set_loc_wf(v: JamView, f: FilterView, g: GameView)
    requires
        jam_wf(v),
        find_spec(v, f) is Some,
        g.authors.len() > 0,
    ensures
        jam_wf(set_loc(v, found_loc(v, f), g)),
        set_loc(v, found_loc(v, f), g).weights == v.weights,
{
    crate::gamejam::submissions::lemma_locate(v.subs, f);
    let l = found_loc(v, f);
    let w = set_loc(v, l, g);
    match l {
        Loc::Current => {},
        Loc::Sub(slot) => {
            match slot {
                Slot::Queue(i) => {
                    let q = v.subs.queue;
                    if i < q.returned.len() {
                        assert forall|k: int| 0 <= k < w.subs.queue.returned.len() implies (
                        #[trigger] w.subs.queue.returned[k]).authors.len() > 0 by {
                            if k != i {
                                assert(w.subs.queue.returned[k] == q.returned[k]);
                            }
                        }
                    } else {
                        assert forall|k: int| 0 <= k < w.subs.queue.games.len() implies (
                        #[trigger] w.subs.queue.games[k]).authors.len() > 0 by {
                            if k != i - q.returned.len() {
                                assert(w.subs.queue.games[k] == q.games[k]);
                            }
                        }
                    }
                },
                Slot::Skipped(i) => {
                    assert forall|k: int| 0 <= k < w.subs.skipped.len() implies (
                    #[trigger] w.subs.skipped[k]).authors.len() > 0 by {
                        if k != i {
                            assert(w.subs.skipped[k] == v.subs.skipped[k]);
                        }
                    }
                },
                Slot::Played(i) => {
                    assert forall|k: int| 0 <= k < w.subs.played.len() implies (
                    #[trigger] w.subs.played[k]).authors.len() > 0 by {
                        if k != i {
                            assert(w.subs.played[k] == v.subs.played[k]);
                        }
                    }
                },
            }
        },
    }
}

/// Putting back the game that `find_spec` located changes nothing.
pub proof fn lemma_set_loc_same(v: JamView, f: FilterView)
    requires
        find_spec(v, f) is Some,
    ensures
        set_loc(v, found_loc(v, f), game_at_loc(v, found_loc(v, f))) == v,
{
    crate::gamejam::submissions::lemma_locate(v.subs, f);
    let l = found_loc(v, f);
    let w = set_loc(v, l, game_at_loc(v, l));
    match l {
        Loc::Current => {
            assert(w.state == v.state);
        },
        Loc::Sub(slot) => {
            match slot {
                Slot::Queue(i) => {
                    let q = v.subs.queue;
                    if i < q.returned.len() {
                        assert(q.order()[i] == q.returned[i]);
                        assert(w.subs.queue.returned =~= q.returned);
                    } else {
                        assert(q.order()[i] == q.games[i - q.returned.len()]);
                        assert(w.subs.queue.games =~= q.games);
                    }
                    assert(w.subs.queue == q);
                },
                Slot::Skipped(i) => {
                    assert(w.subs.skipped =~= v.subs.skipped);
                },
                Slot::Played(i) => {
                    assert(w.subs.played =~= v.subs.played);
                },
            }
            assert(w.subs == v.subs);
        },
    }
}

/// The game that `find_spec` locates passes the filter and has an author.
pub proof fn lemma_find_spec(v: JamView, f: FilterView)
    requires
        jam_wf(v),
    ensures
        find_spec(v, f) matches Some((l, t)) ==> passes(f, game_at_loc(v, l)) && game_at_loc(
            v,
            l,
        ).authors.len() > 0 && (t == GameType::Current <==> l is Current),
{
    crate::gamejam::submissions::lemma_locate(v.subs, f);
    match locate(v.subs, f) {
        Some(Slot::Queue(i)) => {
            if i < v.subs.queue.returned.len() {
                assert(v.subs.queue.order()[i] == v.subs.queue.returned[i]);
            } else {
                assert(v.subs.queue.order()[i] == v.subs.queue.games[i - v.subs.queue.returned.len()]);
            }
        },
        _ => {},
    }
}

/// Taking the next game keeps the queue authored.
pub proof fn lemma_next_keeps_authored(q: QueueView)
    requires
        authored(q.returned),
        authored(q.games),
    ensures
        authored(queue_next(q).0.returned),
        authored(queue_next(q).0.games),
        queue_next(q).1 matches Some(g) ==> g.authors.len() > 0,
{
    lemma_without_authored(q.returned, 0);
    lemma_without_authored(q.games, 0);
}


/// The skipped list without its `i`-th game.
pub open spec fn drop_skipped(v: JamView, i: int) -> JamView {
    JamView { subs: SubmissionsView { skipped: without(v.subs.skipped, i), ..v.subs }, ..v }
}

/// Bringing back a skipped game: the current game goes to the front of the
/// queue, and `author`'s skipped game, or the last skipped one, is played.
pub open spec fn unskip_spec(v: JamView, author: Option<Seq<char>>) -> (JamView, Option<Seq<char>>) {
    let (v1, prefix) = match current_of(v.state) {
        Some(g) => (
            JamView {
                state: StateView::Idle,
                subs: SubmissionsView {
                    queue: QueueView { returned: seq![g] + v.subs.queue.returned, ..v.subs.queue },
                    ..v.subs
                },
                ..v
            },
            "Current game has been put at the front of the queue. "@,
        ),
        None => (JamView { state: StateView::Idle, ..v }, Seq::<char>::empty()),
    };
    let (v2, rest) = match author {
        Some(a) => match first_match(v1.subs.skipped, FilterView::Author(a), 0) {
            Some(i) => {
                let (v3, r) = set_current_spec(drop_skipped(v1, i), Some(v1.subs.skipped[i]));
                (v3, r->0)
            },
            None => (set_current_spec(v1, None).0, "No game from "@ + a + " found"@),
        },
        None => if v1.subs.skipped.len() > 0 {
            let i = v1.subs.skipped.len() - 1;
            let (v3, r) = set_current_spec(drop_skipped(v1, i), Some(v1.subs.skipped[i]));
            (v3, r->0)
        } else {
            (v1, "No game has been skipped yet"@)
        },
    };
    (saved(v2), Some(prefix + rest))
}

/// Whether a link may be submitted: it starts with the configured start,
/// where one is set.
pub open spec fn check_link_spec(c: GameJamConfig, link: Seq<char>) -> bool {
    match c.link_start {
        Some(s) => has_prefix(link, s@),
        None => true,
    }
}

/// The game that a new submission of `link` by `sender` makes.
pub open spec fn new_game(sender: Seq<char>, link: Seq<char>) -> GameView {
    GameView { authors: seq![sender], link, name: name_from_link_spec(link) }
}

/// Submitting `link` for `sender`.
pub open spec fn submit_spec(v: JamView, c: GameJamConfig, link: Seq<char>, sender: Seq<char>) -> (
    JamView,
    Option<Seq<char>>,
) {
    if !v.open {
        (v, Some("The queue is closed. You can not submit your game at the moment."@))
    } else if !check_link_spec(c, link) {
        (v, Some(at(sender) + ", that link can not be submitted"@))
    } else if !c.multiple_submissions && find_spec(v, FilterView::Author(sender)) is Some {
        (v, Some(at(sender) + ", you can not submit more than one game"@))
    } else {
        match find_spec(v, FilterView::Link(link)) {
            Some((l, t)) => {
                let g = game_at_loc(v, l);
                if t == GameType::Played {
                    (v, Some(at(sender) + ", we have already played that game."@))
                } else if c.allow_multiple_authors_submit && !has_author(g, sender) {
                    (
                        saved(set_loc(v, l, GameView { authors: g.authors.push(sender), ..g })),
                        Some(at(sender) + ", you have been marked as another author of this game"@),
                    )
                } else {
                    (
                        v,
                        Some(
                            match t {
                                GameType::Queued => at(sender)
                                    + ", that game has already been submitted."@,
                                GameType::Current => at(sender)
                                    + ", we are playing that game right now!"@,
                                _ => at(sender)
                                    + ", that game was skipped. You may return to the queue using !return command"@,
                            },
                        ),
                    )
                }
            },
            None => (
                saved(
                    JamView {
                        subs: SubmissionsView {
                            queue: QueueView {
                                games: v.subs.queue.games.push(new_game(sender, link)),
                                ..v.subs.queue
                            },
                            ..v.subs
                        },
                        ..v
                    },
                ),
                Some(at(sender) + ", your game has been submitted!"@),
            ),
        }
    }
}

/// The game that `sender` may edit, or why not.
pub open spec fn edit_spec(v: JamView, sender: Seq<char>, check_main_author: bool, f: FilterView) -> Result<
    Loc,
    Seq<char>,
> {
    match find_spec(v, f) {
        Some((l, t)) => if check_main_author && game_at_loc(v, l).authors[0] != sender {
            Err(at(sender) + ", you do not have enough rights"@)
        } else if t == GameType::Played {
            Err(at(sender) + ", you cannot edit played games"@)
        } else {
            Ok(l)
        },
        None => Err(at(sender) + ", you have not submitted a game yet"@),
    }
}

/// Adding `other` to the authors of the game that `sender` edits.
pub open spec fn authors_add_spec(
    v: JamView,
    sender: Seq<char>,
    other: Seq<char>,
    check_main_author: bool,
    f: FilterView,
) -> (JamView, Option<Seq<char>>) {
    match edit_spec(v, sender, check_main_author, f) {
        Err(m) => (v, Some(m)),
        Ok(l) => {
            let g = game_at_loc(v, l);
            (
                saved(set_loc(v, l, GameView { authors: g.authors.push(other), ..g })),
                Some(at(sender) + ", "@ + other + " was marked as another author of the game"@),
            )
        },
    }
}

/// The index of `name` among `authors`.
pub open spec fn author_index(authors: Seq<Seq<char>>, name: Seq<char>, i: int) -> Option<int>
    decreases authors.len() - i,
{
    if 0 <= i < authors.len() {
        if authors[i] == name {
            Some(i)
        } else {
            author_index(authors, name, i + 1)
        }
    } else {
        None
    }
}

/// Removing `other` from the authors of the game that `sender` edits; the
/// only author cannot be removed.
pub open spec fn authors_remove_spec(
    v: JamView,
    sender: Seq<char>,
    other: Seq<char>,
    check_main_author: bool,
    f: FilterView,
) -> (JamView, Option<Seq<char>>) {
    match edit_spec(v, sender, check_main_author, f) {
        Err(m) => (v, Some(m)),
        Ok(l) => {
            let g = game_at_loc(v, l);
            if g.authors.len() == 1 {
                (
                    v,
                    Some(
                        at(sender)
                            + ", you cannot remove the only author of the game. Call !cancel instead"@,
                    ),
                )
            } else {
                match author_index(g.authors, other, 0) {
                    Some(i) => (
                        saved(set_loc(v, l, GameView { authors: g.authors.remove(i), ..g })),
                        Some(at(sender) + ", "@ + other + " was removed from the author list of the game"@),
                    ),
                    None => (v, Some(at(sender) + ", "@ + other + " was not found"@)),
                }
            }
        },
    }
}


/// Starting a raffle: the current game goes to the played list.
pub open spec fn raffle_start_spec(v: JamView) -> (JamView, Option<Seq<char>>) {
    match v.state {
        StateView::Raffle { .. } => (
            v,
            Some("The raffle is in progress. Type !join to join the raffle."@),
        ),
        _ => {
            let v1 = set_current_spec(v, None).0;
            (
                JamView {
                    state: StateView::Raffle { joined: Seq::empty() },
                    status: Some("The raffle is in progress. Type !join to join the raffle!"@),
                    ..v1
                },
                Some("The raffle has started! Type !join to join the raffle."@),
            )
        },
    }
}

/// Joining the raffle with `sender`'s game, at its saved weight (the
/// default one where it has none yet).
pub open spec fn raffle_join_spec(v: JamView, c: GameJamConfig, sender: Seq<char>) -> (
    JamView,
    Option<Seq<char>>,
) {
    match v.state {
        StateView::Raffle { joined } => match locate(v.subs, FilterView::Author(sender)) {
            Some(s) => if slot_type(s) == GameType::Played {
                (v, Some(at(sender) + ", we have already played your game"@))
            } else {
                let link = game_at(v.subs, s).link;
                let (w, weights) = match lookup(v.weights, link) {
                    Some(x) => (x, v.weights),
                    None => (
                        c.raffle_default_weight,
                        v.weights.push((link, c.raffle_default_weight)),
                    ),
                };
                (
                    JamView {
                        state: StateView::Raffle { joined: upsert(joined, link, w) },
                        weights,
                        ..v
                    },
                    None,
                )
            },
            None => (v, Some(at(sender) + ", you cannot join the raffle"@)),
        },
        _ => (v, None),
    }
}

/// Calling off the raffle.
pub open spec fn raffle_cancel_spec(v: JamView) -> (JamView, Option<Seq<char>>) {
    match v.state {
        StateView::Raffle { .. } => (
            saved(JamView { state: StateView::Idle, ..v }),
            Some("Raffle is now inactive"@),
        ),
        _ => (v, Some("Raffle is not active anyway. Start the raffle with !raffle"@)),
    }
}

/// The weights after adding one to the weight of each entry of `joined`.
pub open spec fn bump_all(w: Seq<(Seq<char>, u32)>, joined: Seq<(Seq<char>, u32)>) -> Seq<
    (Seq<char>, u32),
>
    decreases joined.len(),
{
    if joined.len() == 0 {
        w
    } else {
        let w1 = bump_all(w, joined.drop_last());
        let k = joined.last().0;
        upsert(w1, k, (lookup(w1, k)->0 + 1) as u32)
    }
}

/// Finishing the raffle whose winner is the `winner`-th entry (none where
/// no entry had a positive weight): every entry's saved weight grows by
/// one and the winning game is played.
pub open spec fn raffle_finish_with_spec(v: JamView, winner: Option<int>) -> (JamView, Option<Seq<char>>) {
    match v.state {
        StateView::Raffle { joined } => {
            let v1 = JamView {
                state: StateView::Raffle { joined: Seq::empty() },
                weights: bump_all(v.weights, joined),
                ..v
            };
            let (v2, r) = match winner {
                Some(i) => {
                    let (subs, g) = remove_spec(v1.subs, FilterView::Link(joined[i].0));
                    set_current_spec(JamView { subs, ..v1 }, g)
                },
                None => (JamView { state: StateView::Idle, ..v1 }, Some("Noone entered the raffle :("@)),
            };
            (saved(v2), r)
        },
        _ => (v, Some("The raffle should be started first: !raffle"@)),
    }
}

/// The raffle can be finished: no saved weight overflows, and where
/// `winner` names an entry, its game is still in the queue or the skipped
/// list.
pub open spec fn raffle_finish_ok(v: JamView, winner: Option<int>) -> bool {
    match v.state {
        StateView::Raffle { joined } => {
            &&& forall|i: int|
                0 <= i < joined.len() ==> (#[trigger] lookup(v.weights, joined[i].0))->0 < u32::MAX
            &&& (winner matches Some(i) ==> 0 <= i < joined.len() && remove_spec(
                v.subs,
                FilterView::Link(joined[i].0),
            ).1 is Some)
        },
        _ => true,
    }
}

/// The weights of the raffle entries, with their indices.
pub open spec fn raffle_weights_of(joined: Seq<(Seq<char>, u32)>) -> Seq<(usize, u32)> {
    Seq::new(joined.len(), |i: int| (i as usize, joined[i].1))
}

/// A winner that a weighted draw among the entries can give.
pub open spec fn possible_winner(joined: Seq<(Seq<char>, u32)>, winner: Option<int>) -> bool {
    match winner {
        Some(i) => 0 <= i < joined.len() && joined[i].1 > 0,
        None => forall|i: int| 0 <= i < joined.len() ==> joined[i].1 == 0,
    }
}

/// The entries of the running raffle (none where no raffle runs).
pub open spec fn raffle_joined(v: JamView) -> Seq<(Seq<char>, u32)> {
    match v.state {
        StateView::Raffle { joined } => joined,
        _ => Seq::empty(),
    }
}

/// The raffle can be finished whatever the draw gives: the entries'
/// weights add up within a `u32`, no saved weight overflows, and the game
/// of every entry that can win is still in the queue or the skipped list.
pub open spec fn raffle_can_finish(v: JamView) -> bool {
    let joined = raffle_joined(v);
    &&& weight_sum(raffle_weights_of(joined)) <= u32::MAX
    &&& forall|i: int|
        0 <= i < joined.len() ==> ((#[trigger] lookup(v.weights, joined[i].0)) matches Some(x) && x
            < u32::MAX)
    &&& forall|i: int|
        0 <= i < joined.len() && joined[i].1 > 0 ==> (#[trigger] remove_spec(
            v.subs,
            FilterView::Link(joined[i].0),
        )).1 is Some
}

/// A game can be removed exactly when the first one that passes `f` is
/// not a played one.
pub proof fn lemma_locate_removable(v: SubmissionsView, f: FilterView)
    ensures
        (remove_spec(v, f).1 is Some) <==> (locate(v, f) matches Some(s) && slot_type(s)
            != GameType::Played),
{
}

/// An optional index as an integer.
pub open spec fn opt_index(w: Option<usize>) -> Option<int> {
    match w {
        Some(i) => Some(i as int),
        None => None,
    }
}

/// The sums of the weights of the prefixes of `s` grow with the prefix.
pub proof fn lemma_weight_sum_prefix(s: Seq<(usize, u32)>, i: int, j: int)
    requires
        0 <= i <= j <= s.len(),
    ensures
        weight_sum(s.take(i)) <= weight_sum(s.take(j)),
    decreases j - i,
{
    if i < j {
        lemma_weight_sum_prefix(s, i, j - 1);
        assert(s.take(j).drop_last() =~= s.take(j - 1));
    }
}

/// Returning `author`'s skipped game to the queue.
pub open spec fn return_game_spec(v: JamView, c: GameJamConfig, author: Seq<char>) -> (
    JamView,
    Option<Seq<char>>,
) {
    if !v.open {
        (v, None)
    } else {
        match first_match(v.subs.skipped, FilterView::Author(author), 0) {
            Some(i) => {
                let g = v.subs.skipped[i];
                let v1 = drop_skipped(v, i);
                let q = v1.subs.queue;
                let q2 = match c.return_mode {
                    ReturnMode::Front => QueueView { returned: q.returned.push(g), ..q },
                    ReturnMode::Back => QueueView { games: q.games.push(g), ..q },
                };
                (
                    saved(JamView { subs: SubmissionsView { queue: q2, ..v1.subs }, ..v1 }),
                    Some(at(author) + ", your game was returned to the queue"@),
                )
            },
            None => (v, None),
        }
    }
}

/// The reply to `author` asking for their luck level.
pub open spec fn luck_spec(v: JamView, c: GameJamConfig, author: Seq<char>) -> Seq<char> {
    match lookup(v.weights, author) {
        Some(l) => at(author) + ", your current luck level is "@ + decimal(l as nat),
        None => match find_spec(v, FilterView::Author(author)) {
            None => at(author) + ", you need to first submit your game!"@,
            Some((_, t)) => if t == GameType::Queued || t == GameType::Skipped {
                at(author) + ", your current luck level is "@ + decimal(c.raffle_default_weight as nat)
            } else {
                at(author) + ", you can no longer participate in raffles!"@
            },
        },
    }
}

/// Playing the game whose author has not answered yet.
pub open spec fn force_spec(v: JamView) -> (JamView, Option<Seq<char>>) {
    match v.state {
        StateView::Waiting { game, .. } => set_current_spec(JamView { state: StateView::Idle, ..v }, Some(game)),
        _ => (v, Some("Not waiting for response at the moment"@)),
    }
}

/// How many games are queued.
pub open spec fn queue_count_text(n: nat) -> Seq<char> {
    if n == 0 {
        "The queue is empty"@
    } else {
        "There are "@ + decimal(n) + " games in the queue"@
    }
}

/// The reply to `sender` asking about the queue: their place in it (with
/// the queue mode), whether their game was skipped, then the queue's length
/// (with the queue mode and no sheet) or the sheet's link.
pub open spec fn queue_spec(v: JamView, c: GameJamConfig, sender: Seq<char>) -> Option<Seq<char>> {
    let p1 = if c.queue_mode {
        match first_match(v.subs.queue.order(), FilterView::Author(sender), 0) {
            Some(p) => at(sender) + ", your game is "@ + decimal((p + 1) as nat) + " in the queue. "@,
            None => Seq::empty(),
        }
    } else {
        Seq::empty()
    };
    let p2 = if first_match(v.subs.skipped, FilterView::Author(sender), 0) is Some {
        at(sender) + ", your game was skipped. You may return to the queue using !return command. "@
    } else {
        Seq::empty()
    };
    let p3 = match c.google_sheet_config {
        Some(sheet) => "Look at the current queue at: https://docs.google.com/spreadsheets/d/"@
            + sheet.sheet_id@ + "/edit#gid=0"@,
        None => Seq::empty(),
    };
    let p_count = if c.queue_mode && c.google_sheet_config is None {
        queue_count_text(v.subs.queue.order().len())
    } else {
        Seq::empty()
    };
    let reply = p1 + p2 + p_count + p3;
    if reply.len() > 0 {
        Some(reply)
    } else {
        None
    }
}

/// A chat message from `sender`: the author being waited for starts their
/// game; otherwise, with automatic returns, the sender's skipped game
/// comes back.
pub open spec fn check_message_spec(v: JamView, c: GameJamConfig, sender: Seq<char>) -> (
    JamView,
    Option<Seq<char>>,
) {
    let rest = if c.auto_return {
        return_game_spec(v, c, sender)
    } else {
        (v, None)
    };
    match v.state {
        StateView::Waiting { game, .. } => if has_author(game, sender) {
            set_current_spec(JamView { state: StateView::Idle, ..v }, Some(game))
        } else {
            rest
        },
        _ => rest,
    }
}

/// `delta` milliseconds pass: a wait that runs out skips the game and takes
/// the next one.
pub open spec fn update_spec(v: JamView, c: GameJamConfig, delta: u128) -> (JamView, Option<Seq<char>>) {
    match v.state {
        StateView::Waiting { time_limit, game } => if delta >= time_limit {
            skip_spec(v, c, true)
        } else {
            (
                JamView { state: StateView::Waiting { time_limit: (time_limit - delta) as u128, game }, ..v },
                None,
            )
        },
        _ => (v, None),
    }
}

pub proof fn lemma_author_index(a: Seq<Seq<char>>, name: Seq<char>, i: int)
    requires
        0 <= i,
    ensures
        match author_index(a, name, i) {
            Some(j) => i <= j < a.len() && a[j] == name,
            None => forall|k: int| i <= k < a.len() ==> a[k] != name,
        },
    decreases a.len() - i,
{
    if 0 <= i < a.len() && a[i] != name {
        lemma_author_index(a, name, i + 1);
    }
}

pub proof fn lemma_author_index_is(a: Seq<Seq<char>>, name: Seq<char>, j: int)
    requires
        0 <= j < a.len(),
        a[j] == name,
        forall|k: int| 0 <= k < j ==> a[k] != name,
    ensures
        author_index(a, name, 0) == Some(j),
{
    lemma_author_index_from(a, name, 0, j);
}

proof fn lemma_author_index_from(a: Seq<Seq<char>>, name: Seq<char>, i: int, j: int)
    requires
        0 <= i <= j < a.len(),
        a[j] == name,
        forall|k: int| 0 <= k < j ==> a[k] != name,
    ensures
        author_index(a, name, i) == Some(j),
    decreases j - i,
{
    if i < j {
        lemma_author_index_from(a, name, i + 1, j);
    }
}

/// `@<name><text>`.
pub fn at_text(name: &str, text: &str) -> (r: String)
    ensures
        r@ == at(name@) + text@,
{
    let mut r = concat_text("@", name);
    r.append(text);
    r
}

impl View for GamejamBot {
    type V = JamView;

    open spec fn view(&self) -> JamView {
        JamView {
            state: self.state.current_state@,
            subs: self.state.submissions@,
            open: self.state.is_queue_open,
            weights: self.state.raffle_weights@,
            saved: self.update_sheets_queued,
            played_saved: self.played_games_changed,
            status: opt_text(self.status),
        }
    }
}

impl GamejamBot {
    /// The bot's invariant.
    pub open spec fn wf(&self) -> bool {
        jam_wf(self@)
    }

    /// A bot with an open, empty queue and no raffle weights.
    pub fn new(config: GameJamConfig) -> (r: GamejamBot)
        ensures
            r.wf(),
            r.config == config,
            r@.state == StateView::Idle,
            r@.subs.queue.order().len() == 0,
            r@.subs.skipped.len() == 0,
            r@.subs.played.len() == 0,
            r@.open,
            r@.weights.len() == 0,
            !r@.saved && !r@.played_saved && r@.status is None,
    {
        let r = GamejamBot {
            config,
            state: BotState {
                current_state: GameJamState::Idle,
                submissions: Submissions::new(),
                is_queue_open: true,
                raffle_weights: LuckTable::new(),
            },
            update_sheets_queued: false,
            played_games_changed: false,
            status: None,
        };
        proof {
            assert(r@.subs.queue.returned.len() == 0 && r@.subs.queue.games.len() == 0);
        }
        r
    }

    /// Whether the bot's state holds its invariant (a state read from a
    /// save may not).
    pub fn check_state(&self) -> (b: bool)
        ensures
            b == self.wf(),
    {
        let current_ok = match self.state.current_state.current() {
            Some(game) => game.authors.len() > 0,
            None => true,
        };
        if !current_ok {
            return false;
        }
        let queue = self.state.submissions.queue.get_queue();
        let mut i: usize = 0;
        while i < queue.len()
            invariant
                i <= queue@.len(),
                queue@.len() == self@.subs.queue.order().len(),
                forall|k: int| 0 <= k < queue@.len() ==> (*#[trigger] queue@[k])@ == self@.subs.queue.order()[k],
                forall|k: int| 0 <= k < i ==> (#[trigger] self@.subs.queue.order()[k]).authors.len() > 0,
            decreases queue@.len() - i,
        {
            if queue[i].authors.len() == 0 {
                proof {
                    let q = self@.subs.queue;
                    if (i as int) < q.returned.len() {
                        assert(q.order()[i as int] == q.returned[i as int]);
                    } else {
                        assert(q.order()[i as int] == q.games[i - q.returned.len()]);
                    }
                }
                return false;
            }
            i = i + 1;
        }
        proof {
            let q = self@.subs.queue;
            assert forall|k: int| 0 <= k < q.returned.len() implies (#[trigger] q.returned[k]).authors.len() > 0 by {
                assert(q.order()[k] == q.returned[k]);
            }
            assert forall|k: int| 0 <= k < q.games.len() implies (#[trigger] q.games[k]).authors.len() > 0 by {
                assert(q.order()[q.returned.len() + k] == q.games[k]);
            }
        }
        if !all_authored(&self.state.submissions.skipped) || !all_authored(&self.state.submissions.played_games) {
            return false;
        }
        if !self.state.raffle_weights.unique_keys() {
            return false;
        }
        match &self.state.current_state {
            GameJamState::Raffle { joined } => {
                if !joined.unique_keys() {
                    return false;
                }
                let entries = joined.entries();
                let mut j: usize = 0;
                assert(self@.state == StateView::Raffle { joined: joined@ });
                while j < entries.len()
                    invariant
                        self@.state == (StateView::Raffle { joined: joined@ }),
                        j <= entries@.len(),
                        entries@.len() == joined@.len(),
                        forall|k: int| 0 <= k < entries@.len() ==> (#[trigger] entries@[k]).0@ == joined@[k].0,
                        forall|k: int| 0 <= k < j ==> has_key(self@.weights, #[trigger] joined@[k].0),
                    decreases entries@.len() - j,
                {
                    if self.state.raffle_weights.get(entries[j].0.as_str()).is_none() {
                        assert(!has_key(self@.weights, joined@[j as int].0));
                        assert(self@.state == StateView::Raffle { joined: joined@ });
                        assert(!jam_wf(self@));
                        return false;
                    }
                    j = j + 1;
                }
                true
            },
            _ => true,
        }
    }

    /// Marks the state as to be saved and shown in the sheet.
    pub fn save_games(&mut self)
        ensures
            final(self)@ == saved(old(self)@),
            final(self).config == old(self).config,
            final(self).wf() == old(self).wf(),
    {
        self.update_sheets_queued = true;
    }

    /// Sets the bot's status line.
    pub fn update_status(&mut self, status_text: String)
        ensures
            final(self)@ == (JamView { status: Some(status_text@), ..old(self)@ }),
            final(self).config == old(self).config,
            final(self).wf() == old(self).wf(),
    {
        self.status = Some(status_text);
    }

    /// Starts playing `game`, or stops playing; the game played until now
    /// goes to the played list.
    pub fn set_current(&mut self, game: Option<Submission>) -> (r: Option<String>)
        requires
            old(self).wf(),
            game matches Some(g) ==> g@.authors.len() > 0,
        ensures
            final(self).wf(),
            final(self).config == old(self).config,
            (final(self)@, opt_text(r)) == set_current_spec(old(self)@, opt_game(game)),
    {
        let mut state = GameJamState::Idle;
        std::mem::swap(&mut state, &mut self.state.current_state);
        match state {
            GameJamState::Playing { game } => {
                self.push_played(game);
            },
            GameJamState::Waiting { game, .. } => {
                self.push_played(game);
            },
            _ => {},
        }
        let reply = match game {
            Some(game) => {
                let status = concat_text("Playing ", game.to_string_name(true).as_str());
                self.update_status(status);
                let reply = concat_text(concat_text("Now playing ", game.to_string_link(true).as_str()).as_str(), ". ");
                self.state.raffle_weights.remove(game.link.as_str());
                self.state.current_state = GameJamState::Playing { game };
                Some(reply)
            },
            None => {
                self.update_status("Not playing a game".to_owned());
                self.state.current_state = GameJamState::Idle;
                None
            },
        };
        self.save_games();
        proof {
            assert(self@.subs =~= set_current_spec(old(self)@, opt_game(game)).0.subs);
        }
        reply
    }

    /// The first game that passes `filter`: the current one, else the
    /// first in the queue, the skipped list and the played list.
    pub fn find_game(&self, filter: &GameFilter) -> (r: Option<(&Submission, GameType)>)
        ensures
            match find_spec(self@, filter@) {
                Some((l, t)) => r matches Some((g, rt)) && g@ == game_at_loc(self@, l) && rt == t,
                None => r is None,
            },
    {
        match self.state.current_state.current() {
            Some(game) => {
                if filter.test(game) {
                    return Some((game, GameType::Current));
                }
            },
            None => {},
        }
        self.state.submissions.find_game(filter)
    }

    /// Like `find_game`, but the game found can be changed in place.
    pub fn find_game_mut(&mut self, filter: &GameFilter) -> (r: Option<(&mut Submission, GameType)>)
        ensures
            final(self).config == old(self).config,
            final(self).state.raffle_weights == old(self).state.raffle_weights,
            match find_spec(old(self)@, filter@) {
                Some((l, t)) => r matches Some((g, rt)) && (*g)@ == game_at_loc(old(self)@, l) && rt
                    == t && final(self)@ == set_loc(old(self)@, l, (*final(g))@),
                None => r is None && final(self)@ == old(self)@,
            },
    {
        let is_current = match self.state.current_state.current() {
            Some(game) => filter.test(game),
            None => false,
        };
        if is_current {
            match self.state.current_state.current_mut() {
                Some(game) => {
                    return Some((game, GameType::Current));
                },
                None => {},
            }
        }
        self.state.submissions.find_game_mut(filter)
    }

    /// Removes `author_name`'s game from the queue or the skipped list: the
    /// first one whose main author is `author_name`.
    pub fn remove_game_response(&mut self, author_name: &str) -> (r: Option<
        String,
    >)
        requires
            old(self).wf(),
        ensures
            final(self).wf(),
            final(self).config == old(self).config,
            (final(self)@, opt_text(r)) == remove_response_spec(old(self)@, author_name@),
    {
        let filter = GameFilter::MainAuthor(author_name.to_owned());
        let ghost subs = self@.subs;
        let removed = self.state.submissions.remove_game(&filter);
        proof {
            lemma_remove_keeps_authored(subs, filter@);
        }
        match removed {
            Some(_) => Some(concat_text(author_name, "'s game has been removed from the queue")),
            None => Some(concat_text("Couldn't find a game from ", author_name)),
        }
    }

    /// Takes the next game: `author_name`'s game where given, else the next
    /// in the queue.
    pub fn next(&mut self, author_name: Option<&str>, confirmation_required: bool) -> (r: Option<
        String,
    >)
        requires
            old(self).wf(),
        ensures
            final(self).wf(),
            final(self).config == old(self).config,
            (final(self)@, opt_text(r)) == next_spec(
                old(self)@,
                old(self).config,
                match author_name {
                    Some(a) => Some(a@),
                    None => None,
                },
                confirmation_required,
            ),
    {
        let ghost subs = self@.subs;
        let found: Result<Submission, String> = match author_name {
            Some(a) => {
                let removed = self.state.submissions.remove_game(&GameFilter::Author(a.to_owned()));
                proof {
                    lemma_remove_keeps_authored(subs, FilterView::Author(a@));
                }
                match removed {
                    Some(g) => Ok(g),
                    None => Err(concat_text("Couldn't find a game from ", a)),
                }
            },
            None => {
                let next = self.state.submissions.queue.next();
                proof {
                    lemma_next_keeps_authored(subs.queue);
                }
                match next {
                    Some(g) => Ok(g),
                    None => Err("The queue is empty. !submit <your game>. ".to_owned()),
                }
            },
        };
        let reply = match found {
            Ok(game) => {
                let limit = if confirmation_required {
                    self.config.response_time_limit
                } else {
                    None
                };
                match limit {
                    Some(response_time) => {
                        let author = game.authors[0].clone();
                        self.set_current(None);
                        self.state.current_state = GameJamState::Waiting {
                            time_limit: response_time as u128 * 1000,
                            game,
                        };
                        self.update_status(concat_text("Waiting for response from ", author.as_str()));
                        let mut reply = concat_text("@", author.as_str());
                        reply.append(", we are about to play your game. Please reply in ");
                        reply.append(u64_to_string(response_time).as_str());
                        reply.append(" seconds.");
                        Some(reply)
                    },
                    None => self.set_current(Some(game)),
                }
            },
            Err(reply) => {
                self.set_current(None);
                Some(reply)
            },
        };
        self.save_games();
        reply
    }

    /// Skips the current game; with `auto_next` takes the next one.
    pub fn skip(&mut self, auto_next: bool) -> (r: Option<String>)
        requires
            old(self).wf(),
        ensures
            final(self).wf(),
            final(self).config == old(self).config,
            (final(self)@, opt_text(r)) == skip_spec(old(self)@, old(self).config, auto_next),
    {
        let mut state = GameJamState::Idle;
        std::mem::swap(&mut state, &mut self.state.current_state);
        let game = match state {
            GameJamState::Playing { game } => game,
            GameJamState::Waiting { game, .. } => game,
            state => {
                self.state.current_state = state;
                return Some("Not playing any game at the moment.".to_owned());
            },
        };
        self.state.current_state = GameJamState::Idle;
        self.push_skipped(game);
        let reply = "Game has been skipped.".to_owned();
        let reply = if auto_next {
            match self.next(None, true) {
                Some(r) => r,
                None => reply,
            }
        } else {
            self.save_games();
            reply
        };
        Some(reply)
    }

    fn push_skipped(&mut self, game: Submission)
        ensures
            final(self)@ == (JamView {
                subs: SubmissionsView { skipped: old(self)@.subs.skipped.push(game@), ..old(self)@.subs },
                ..old(self)@
            }),
            final(self).config == old(self).config,
            final(self).state.raffle_weights == old(self).state.raffle_weights,
            final(self).state.current_state == old(self).state.current_state,
    {
        let ghost v = self.state.submissions.skipped@;
        self.state.submissions.skipped.push(game);
        proof {
            crate::gamejam::queue::lemma_games_view_push(v, game);
        }
    }

    /// Moves every queued game to the skipped list.
    pub fn skip_all(&mut self) -> (r: Option<String>)
        requires
            old(self).wf(),
        ensures
            final(self).wf(),
            final(self).config == old(self).config,
            (final(self)@, opt_text(r)) == skip_all_spec(old(self)@),
    {
        let ghost before = self@;
        let mut games = self.state.submissions.queue.drain_all();
        let ghost s = self.state.submissions.skipped@;
        let ghost g = games@;
        self.state.submissions.skipped.append(&mut games);
        proof {
            assert(crate::gamejam::submission::games_view(s + g) =~= crate::gamejam::submission::games_view(s)
                + crate::gamejam::submission::games_view(g));
            assert(self@.subs.queue =~= (QueueView { returned: Seq::empty(), games: Seq::empty() }));
            assert forall|i: int| 0 <= i < self@.subs.skipped.len() implies (
            #[trigger] self@.subs.skipped[i]).authors.len() > 0 by {
                if i >= before.subs.skipped.len() {
                    let k = i - before.subs.skipped.len();
                    if k < before.subs.queue.returned.len() {
                        assert(before.subs.queue.order()[k] == before.subs.queue.returned[k]);
                    } else {
                        assert(before.subs.queue.order()[k] == before.subs.queue.games[k
                            - before.subs.queue.returned.len()]);
                    }
                }
            }
        }
        self.save_games();
        Some("All games from the queue are moved to the skipped list.".to_owned())
    }

    /// Brings back a skipped game: `author_name`'s, or the last skipped one.
    pub fn unskip(&mut self, author_name: Option<&str>) -> (r: Option<String>)
        requires
            old(self).wf(),
        ensures
            final(self).wf(),
            final(self).config == old(self).config,
            (final(self)@, opt_text(r)) == unskip_spec(
                old(self)@,
                match author_name {
                    Some(a) => Some(a@),
                    None => None,
                },
            ),
    {
        let mut reply = String::new();
        let mut state = GameJamState::Idle;
        std::mem::swap(&mut state, &mut self.state.current_state);
        match state {
            GameJamState::Playing { game } => {
                proof {
                    lemma_authored_add(self@.subs.queue.returned, game@);
                }
                self.state.submissions.queue.return_game_front(game);
                reply.append("Current game has been put at the front of the queue. ");
            },
            GameJamState::Waiting { game, .. } => {
                proof {
                    lemma_authored_add(self@.subs.queue.returned, game@);
                }
                self.state.submissions.queue.return_game_front(game);
                reply.append("Current game has been put at the front of the queue. ");
            },
            _ => {},
        }
        match author_name {
            Some(author_name) => {
                let filter = GameFilter::Author(author_name.to_owned());
                proof {
                    lemma_first_match(self@.subs.skipped, filter@, 0);
                }
                let skipped = match crate::gamejam::submission::position(
                    &self.state.submissions.skipped,
                    &filter,
                ) {
                    Some(i) => Some(self.take_skipped(i)),
                    None => None,
                };
                match self.set_current(skipped) {
                    Some(set_reply) => reply.append(set_reply.as_str()),
                    None => {
                        reply.append("No game from ");
                        reply.append(author_name);
                        reply.append(" found");
                    },
                }
            },
            None => {
                if self.state.submissions.skipped.len() > 0 {
                    let skipped = self.take_skipped(self.state.submissions.skipped.len() - 1);
                    match self.set_current(Some(skipped)) {
                        Some(set_reply) => reply.append(set_reply.as_str()),
                        None => {},
                    }
                } else {
                    reply.append("No game has been skipped yet");
                }
            },
        }
        self.save_games();
        Some(reply)
    }

    fn take_skipped(&mut self, i: usize) -> (r: Submission)
        requires
            i < old(self)@.subs.skipped.len(),
        ensures
            jam_wf(old(self)@) ==> jam_wf(final(self)@) && r@.authors.len() > 0,
            old(self).wf() ==> final(self).wf(),
            r@ == old(self)@.subs.skipped[i as int],
            final(self)@ == drop_skipped(old(self)@, i as int),
            final(self).config == old(self).config,
            final(self).state.raffle_weights == old(self).state.raffle_weights,
            final(self).state.current_state == old(self).state.current_state,
    {
        proof {
            crate::gamejam::queue::lemma_games_view_remove(self.state.submissions.skipped@, i as int);
            if jam_wf(old(self)@) {
                lemma_without_authored(old(self)@.subs.skipped, i as int);
            }
        }
        self.state.submissions.skipped.remove(i)
    }

    /// Whether `game_link` may be submitted.
    pub fn check_link(&self, game_link: &str) -> (b: bool)
        ensures
            b == check_link_spec(self.config, game_link@),
    {
        match &self.config.link_start {
            Some(link_start) => starts_with(game_link, link_start.as_str()),
            None => true,
        }
    }

    /// Submits `game_link` for `sender`.
    pub fn submit(&mut self, game_link: String, sender: String) -> (r: Option<String>)
        requires
            old(self).wf(),
        ensures
            final(self).wf(),
            final(self).config == old(self).config,
            (final(self)@, opt_text(r)) == submit_spec(old(self)@, old(self).config, game_link@, sender@),
    {
        if !self.state.is_queue_open {
            return Some("The queue is closed. You can not submit your game at the moment.".to_owned());
        }
        if !self.check_link(game_link.as_str()) {
            return Some(at_text(sender.as_str(), ", that link can not be submitted"));
        }
        let same_author = self.find_game(&GameFilter::Author(sender.clone())).is_some();
        if !self.config.multiple_submissions && same_author {
            return Some(at_text(sender.as_str(), ", you can not submit more than one game"));
        }
        let allow_multiple_authors_submits = self.config.allow_multiple_authors_submit;
        let filter = GameFilter::Link(game_link.clone());
        proof {
            lemma_find_spec(self@, filter@);
            if find_spec(self@, filter@) is Some {
                let g = game_at_loc(self@, found_loc(self@, filter@));
                lemma_set_loc_wf(self@, filter@, GameView { authors: g.authors.push(sender@), ..g });
            }
        }
        let ghost v0 = self@;
        proof {
            if find_spec(v0, filter@) is Some {
                lemma_set_loc_same(v0, filter@);
            }
        }
        match self.find_game_mut(&filter) {
            Some((game, game_type)) => {
                let ghost gv = game@;
                if game_type == GameType::Played {
                    return Some(at_text(sender.as_str(), ", we have already played that game."));
                }
                if allow_multiple_authors_submits && !crate::gamejam::submission::contains_author(
                    &game.authors,
                    sender.as_str(),
                ) {
                    let response = at_text(
                        sender.as_str(),
                        ", you have been marked as another author of this game",
                    );
                    let ghost before = game.authors.deep_view();
                    game.authors.push(sender);
                    proof {
                        assert(game.authors.deep_view() =~= before.push(sender@));
                        assert(game@ =~= (GameView { authors: gv.authors.push(sender@), ..gv }));
                    }
                    self.save_games();
                    return Some(response);
                }
                let response = match game_type {
                    GameType::Queued => at_text(sender.as_str(), ", that game has already been submitted."),
                    GameType::Current => at_text(sender.as_str(), ", we are playing that game right now!"),
                    _ => at_text(
                        sender.as_str(),
                        ", that game was skipped. You may return to the queue using !return command",
                    ),
                };
                return Some(response);
            },
            None => {},
        }
        let response = at_text(sender.as_str(), ", your game has been submitted!");
        let authors = vec![sender];
        proof {
            assert(authors.deep_view() =~= seq![sender@]);
        }
        let game = Submission::new(authors, game_link);
        proof {
            lemma_authored_add(self@.subs.queue.games, game@);
        }
        self.state.submissions.queue.queue_game(game);
        self.save_games();
        Some(response)
    }

    /// The game that `sender` may edit: the first that passes `filter`,
    /// where `check_main_author` asks that `sender` be its main author and
    /// played games cannot be edited.
    pub fn edit_game(&mut self, sender: &str, check_main_author: bool, filter: &GameFilter) -> (r:
        Result<&mut Submission, Option<String>>)
        requires
            old(self).wf(),
        ensures
            final(self).config == old(self).config,
            match edit_spec(old(self)@, sender@, check_main_author, filter@) {
                Ok(l) => r matches Ok(g) && (*g)@ == game_at_loc(old(self)@, l) && final(self)@
                    == set_loc(old(self)@, l, (*final(g))@),
                Err(m) => r matches Err(Some(x)) && x@ == m && final(self)@ == old(self)@,
            },
    {
        proof {
            lemma_find_spec(self@, filter@);
            if find_spec(self@, filter@) is Some {
                lemma_set_loc_same(self@, filter@);
            }
        }
        match self.find_game_mut(filter) {
            Some((game, game_type)) => {
                if check_main_author && !crate::text::str_eq(game.authors[0].as_str(), sender) {
                    return Err(Some(at_text(sender, ", you do not have enough rights")));
                }
                if game_type == GameType::Played {
                    return Err(Some(at_text(sender, ", you cannot edit played games")));
                }
                Ok(game)
            },
            None => Err(Some(at_text(sender, ", you have not submitted a game yet"))),
        }
    }

    /// Adds `other_author` to the authors of the game that `sender` edits.
    pub fn authors_add(
        &mut self,
        sender: &str,
        other_author: String,
        check_main_author: bool,
        filter: &GameFilter,
    ) -> (r: Option<String>)
        requires
            old(self).wf(),
        ensures
            final(self).wf(),
            final(self).config == old(self).config,
            (final(self)@, opt_text(r)) == authors_add_spec(
                old(self)@,
                sender@,
                other_author@,
                check_main_author,
                filter@,
            ),
    {
        proof {
            lemma_find_spec(self@, filter@);
            if find_spec(self@, filter@) is Some {
                let g = game_at_loc(self@, found_loc(self@, filter@));
                lemma_set_loc_wf(self@, filter@, GameView { authors: g.authors.push(other_author@), ..g });
            }
        }
        let mut response = at_text(sender, ", ");
        response.append(other_author.as_str());
        response.append(" was marked as another author of the game");
        match self.edit_game(sender, check_main_author, filter) {
            Err(response) => response,
            Ok(game) => {
                let ghost gv = game@;
                let ghost before = game.authors.deep_view();
                game.authors.push(other_author);
                proof {
                    assert(game.authors.deep_view() =~= before.push(other_author@));
                    assert(game@ =~= (GameView { authors: gv.authors.push(other_author@), ..gv }));
                }
                self.save_games();
                Some(response)
            },
        }
    }

    /// Removes `other_author` from the authors of the game that `sender`
    /// edits, unless it is the only author.
    pub fn authors_remove(
        &mut self,
        sender: &str,
        other_author: &str,
        check_main_author: bool,
        filter: &GameFilter,
    ) -> (r: Option<String>)
        requires
            old(self).wf(),
        ensures
            final(self).wf(),
            final(self).config == old(self).config,
            (final(self)@, opt_text(r)) == authors_remove_spec(
                old(self)@,
                sender@,
                other_author@,
                check_main_author,
                filter@,
            ),
    {
        proof {
            lemma_find_spec(self@, filter@);
            if find_spec(self@, filter@) is Some {
                lemma_set_loc_same(self@, filter@);
                let g = game_at_loc(self@, found_loc(self@, filter@));
                lemma_author_index(g.authors, other_author@, 0);
                if g.authors.len() > 1 && author_index(g.authors, other_author@, 0) is Some {
                    let i = author_index(g.authors, other_author@, 0)->0;
                    lemma_set_loc_wf(self@, filter@, GameView { authors: g.authors.remove(i), ..g });
                }
            }
        }
        match self.edit_game(sender, check_main_author, filter) {
            Err(response) => response,
            Ok(game) => {
                let ghost gv = game@;
                if game.authors.len() == 1 {
                    return Some(
                        at_text(
                            sender,
                            ", you cannot remove the only author of the game. Call !cancel instead",
                        ),
                    );
                }
                match crate::gamejam::submission::author_position(&game.authors, other_author) {
                    Some(index) => {
                        proof {
                            lemma_author_index_is(game.authors.deep_view(), other_author@, index as int);
                        }
                        let ghost before = game.authors.deep_view();
                        game.authors.remove(index);
                        proof {
                            assert(game.authors.deep_view() =~= before.remove(index as int));
                            assert(game@ =~= (GameView { authors: gv.authors.remove(index as int), ..gv }));
                        }
                        self.save_games();
                        let mut response = at_text(sender, ", ");
                        response.append(other_author);
                        response.append(" was removed from the author list of the game");
                        Some(response)
                    },
                    None => {
                        proof {
                            lemma_author_index(game.authors.deep_view(), other_author@, 0);
                        }
                        let mut response = at_text(sender, ", ");
                        response.append(other_author);
                        response.append(" was not found");
                        Some(response)
                    },
                }
            },
        }
    }

    /// Starts a raffle; the game being played goes to the played list.
    pub fn raffle_start(&mut self) -> (r: Option<String>)
        requires
            old(self).wf(),
        ensures
            final(self).wf(),
            final(self).config == old(self).config,
            (final(self)@, opt_text(r)) == raffle_start_spec(old(self)@),
    {
        let running = match &self.state.current_state {
            GameJamState::Raffle { .. } => true,
            _ => false,
        };
        if running {
            return Some("The raffle is in progress. Type !join to join the raffle.".to_owned());
        }
        self.set_current(None);
        self.state.current_state = GameJamState::Raffle { joined: LuckTable::new() };
        self.update_status("The raffle is in progress. Type !join to join the raffle!".to_owned());
        Some("The raffle has started! Type !join to join the raffle.".to_owned())
    }

    /// Enters `sender`'s game into the running raffle at its saved weight.
    pub fn raffle_join(&mut self, sender: String) -> (r: Option<String>)
        requires
            old(self).wf(),
        ensures
            final(self).wf(),
            final(self).config == old(self).config,
            (final(self)@, opt_text(r)) == raffle_join_spec(old(self)@, old(self).config, sender@),
    {
        let running = match &self.state.current_state {
            GameJamState::Raffle { .. } => true,
            _ => false,
        };
        if !running {
            return None;
        }
        let link = match self.state.submissions.find_game(&GameFilter::Author(sender.clone())) {
            Some((game, game_type)) => {
                if game_type == GameType::Played {
                    return Some(at_text(sender.as_str(), ", we have already played your game"));
                }
                game.link.clone()
            },
            None => {
                return Some(at_text(sender.as_str(), ", you cannot join the raffle"));
            },
        };
        let ghost w0 = self@.weights;
        let weight = self.state.raffle_weights.get_or_insert(link.clone(), self.config.raffle_default_weight);
        proof {
            lemma_key_index(w0, link@, 0);
            lemma_upsert_keys(w0, link@, self.config.raffle_default_weight, link@);
            assert forall|k: Seq<char>| has_key(w0, k) implies has_key(self@.weights, k) by {
                lemma_upsert_keys(w0, link@, self.config.raffle_default_weight, k);
            }
        }
        match &mut self.state.current_state {
            GameJamState::Raffle { joined } => {
                let ghost j0 = joined@;
                proof {
                    lemma_upsert_unique(j0, link@, weight);
                }
                joined.insert(link, weight);
                proof {
                    assert forall|i: int| 0 <= i < joined@.len() implies has_key(
                        self.state.raffle_weights@,
                        #[trigger] joined@[i].0,
                    ) by {
                        lemma_has_key(joined@, joined@[i].0);
                        lemma_upsert_keys(j0, link@, weight, joined@[i].0);
                        if joined@[i].0 != link@ {
                            lemma_has_key(j0, joined@[i].0);
                            let m = choose|m: int| 0 <= m < j0.len() && (#[trigger] j0[m]).0 == joined@[i].0;
                            assert(has_key(w0, j0[m].0));
                        }
                    }
                }
            },
            _ => {},
        }
        None
    }

    /// Calls off the running raffle.
    pub fn raffle_cancel(&mut self) -> (r: Option<String>)
        requires
            old(self).wf(),
        ensures
            final(self).wf(),
            final(self).config == old(self).config,
            (final(self)@, opt_text(r)) == raffle_cancel_spec(old(self)@),
    {
        let running = match &self.state.current_state {
            GameJamState::Raffle { .. } => true,
            _ => false,
        };
        if running {
            self.state.current_state = GameJamState::Idle;
            self.save_games();
            Some("Raffle is now inactive".to_owned())
        } else {
            Some("Raffle is not active anyway. Start the raffle with !raffle".to_owned())
        }
    }

    /// Finishes the raffle, `winner` being the index of the entry that won
    /// the draw (none where no entry had a positive weight): every entry's
    /// saved weight grows by one and the winning game is played.
    pub fn raffle_finish_with(&mut self, winner: Option<usize>) -> (r: Option<String>)
        requires
            old(self).wf(),
            raffle_finish_ok(old(self)@, opt_index(winner)),
        ensures
            final(self).wf(),
            final(self).config == old(self).config,
            (final(self)@, opt_text(r)) == raffle_finish_with_spec(old(self)@, opt_index(winner)),
    {
        let ghost v0 = self@;
        let mut state = GameJamState::Raffle { joined: LuckTable::new() };
        std::mem::swap(&mut state, &mut self.state.current_state);
        let joined = match state {
            GameJamState::Raffle { joined } => joined,
            other => {
                self.state.current_state = other;
                return Some("The raffle should be started first: !raffle".to_owned());
            },
        };
        proof {
            assert(forall|i: int| 0 <= i < joined@.len() ==> has_key(v0.weights, #[trigger] joined@[i].0));
            lemma_bump(v0.weights, joined@);
        }
        bump_weights(&mut self.state.raffle_weights, &joined);
        let reply = match winner {
            Some(i) => {
                let entries = joined.entries();
                let link = entries[i].0.clone();
                let filter = GameFilter::Link(link);
                let ghost subs = self@.subs;
                let removed = self.state.submissions.remove_game(&filter);
                proof {
                    lemma_remove_keeps_authored(subs, filter@);
                }
                match removed {
                    Some(game) => self.set_current(Some(game)),
                    None => None,
                }
            },
            None => {
                self.state.current_state = GameJamState::Idle;
                Some("Noone entered the raffle :(".to_owned())
            },
        };
        self.save_games();
        reply
    }

    /// Finishes the raffle with a weighted draw among its entries (by
    /// `rand`): whatever the draw gives, the outcome is that of
    /// `raffle_finish_with` for a winner that the draw can give.
    pub fn raffle_finish(&mut self) -> (r: Option<String>)
        requires
            old(self).wf(),
            raffle_can_finish(old(self)@),
        ensures
            final(self).wf(),
            final(self).config == old(self).config,
            exists|w: Option<int>|
                possible_winner(raffle_joined(old(self)@), w) && (final(self)@, opt_text(r))
                    == #[trigger] raffle_finish_with_spec(old(self)@, w),
    {
        let ghost joined = raffle_joined(self@);
        let mut weights: Vec<(usize, u32)> = Vec::new();
        match &self.state.current_state {
            GameJamState::Raffle { joined } => {
                let entries = joined.entries();
                let mut i: usize = 0;
                while i < entries.len()
                    invariant
                        i <= entries@.len(),
                        entries@.len() == joined@.len(),
                        forall|k: int| 0 <= k < entries@.len() ==> (#[trigger] entries@[k]).1 == joined@[k].1,
                        weights@ =~= raffle_weights_of(joined@).take(i as int),
                    decreases entries@.len() - i,
                {
                    weights.push((i, entries[i].1));
                    i = i + 1;
                }
            },
            _ => {},
        }
        proof {
            assert(weights@ =~= raffle_weights_of(joined));
        }
        let chosen = choose_weighted_entry(&weights);
        let winner = match chosen {
            Some(e) => Some(e.0),
            None => None,
        };
        proof {
            match chosen {
                Some(e) => {
                    let k = choose|k: int| 0 <= k < weights@.len() && weights@[k] == e && e.1 > 0;
                    assert(weights@[k] == raffle_weights_of(joined)[k]);
                    assert(possible_winner(joined, opt_index(winner)));
                },
                None => {
                    assert forall|k: int| 0 <= k < joined.len() implies joined[k].1 == 0 by {
                        assert(weights@[k] == raffle_weights_of(joined)[k]);
                    }
                },
            }
        }
        self.raffle_finish_with(winner)
    }

    /// Whether the raffle can be finished whatever the draw gives.
    pub fn raffle_ready(&self) -> (b: bool)
        ensures
            b == raffle_can_finish(self@),
    {
        let joined = match &self.state.current_state {
            GameJamState::Raffle { joined } => joined,
            _ => {
                proof {
                    assert(raffle_weights_of(Seq::empty()) =~= Seq::empty());
                }
                return true;
            },
        };
        let ghost j = joined@;
        let ghost ws = raffle_weights_of(j);
        let entries = joined.entries();
        let mut sum: u64 = 0;
        let mut i: usize = 0;
        while i < entries.len()
            invariant
                i <= entries@.len(),
                entries@.len() == j.len(),
                j == raffle_joined(self@),
                ws == raffle_weights_of(j),
                forall|k: int|
                    0 <= k < entries@.len() ==> (#[trigger] entries@[k]).0@ == j[k].0 && entries@[k].1 == j[k].1,
                sum == weight_sum(ws.take(i as int)),
                sum <= u32::MAX,
                forall|k: int|
                    0 <= k < i ==> ((#[trigger] lookup(self@.weights, j[k].0)) matches Some(x) && x < u32::MAX),
                forall|k: int|
                    0 <= k < i && j[k].1 > 0 ==> (#[trigger] remove_spec(self@.subs, FilterView::Link(j[k].0))).1 is Some,
            decreases entries@.len() - i,
        {
            assert(ws.take(i + 1).drop_last() =~= ws.take(i as int));
            let w = entries[i].1;
            if sum + (w as u64) > 4294967295u64 {
                proof {
                    lemma_weight_sum_prefix(ws, i + 1, ws.len() as int);
                    assert(ws.take(ws.len() as int) =~= ws);
                }
                return false;
            }
            sum = sum + (w as u64);
            match self.state.raffle_weights.get(entries[i].0.as_str()) {
                Some(x) => {
                    if x == u32::MAX {
                        return false;
                    }
                },
                None => {
                    return false;
                },
            }
            if w > 0 {
                let filter = GameFilter::Link(entries[i].0.clone());
                proof {
                    lemma_locate_removable(self@.subs, filter@);
                }
                let found = self.state.submissions.find_game(&filter);
                let present = match found {
                    Some((_, t)) => t != GameType::Played,
                    None => false,
                };
                if !present {
                    return false;
                }
            }
            i = i + 1;
        }
        proof {
            assert(ws.take(ws.len() as int) =~= ws);
        }
        true
    }

    /// Returns `author_name`'s skipped game to the queue, where the queue
    /// is open.
    pub fn return_game(&mut self, author_name: &str) -> (r: Option<String>)
        requires
            old(self).wf(),
        ensures
            final(self).wf(),
            final(self).config == old(self).config,
            (final(self)@, opt_text(r)) == return_game_spec(old(self)@, old(self).config, author_name@),
    {
        if !self.state.is_queue_open {
            return None;
        }
        let filter = GameFilter::Author(author_name.to_owned());
        proof {
            lemma_first_match(self@.subs.skipped, filter@, 0);
        }
        match crate::gamejam::submission::position(&self.state.submissions.skipped, &filter) {
            Some(index) => {
                let game = self.take_skipped(index);
                match self.config.return_mode {
                    ReturnMode::Front => {
                        proof {
                            lemma_authored_add(self@.subs.queue.returned, game@);
                        }
                        self.state.submissions.queue.return_game(game);
                    },
                    ReturnMode::Back => {
                        proof {
                            lemma_authored_add(self@.subs.queue.games, game@);
                        }
                        self.state.submissions.queue.queue_game(game);
                    },
                }
                self.save_games();
                Some(at_text(author_name, ", your game was returned to the queue"))
            },
            None => None,
        }
    }

    /// Tells `author_name` their luck level in raffles.
    pub fn luck(&self, author_name: &str) -> (r: Option<String>)
        ensures
            r matches Some(x) && x@ == luck_spec(self@, self.config, author_name@),
    {
        let luck = match self.state.raffle_weights.get(author_name) {
            Some(luck) => luck,
            None => match self.find_game(&GameFilter::Author(author_name.to_owned())) {
                None => {
                    return Some(at_text(author_name, ", you need to first submit your game!"));
                },
                Some((_, game_type)) => {
                    if game_type == GameType::Queued || game_type == GameType::Skipped {
                        self.config.raffle_default_weight
                    } else {
                        return Some(at_text(author_name, ", you can no longer participate in raffles!"));
                    }
                },
            },
        };
        let mut reply = at_text(author_name, ", your current luck level is ");
        reply.append(u64_to_string(luck as u64).as_str());
        Some(reply)
    }

    /// Plays the game whose author has not answered yet.
    pub fn force(&mut self) -> (r: Option<String>)
        requires
            old(self).wf(),
        ensures
            final(self).wf(),
            final(self).config == old(self).config,
            (final(self)@, opt_text(r)) == force_spec(old(self)@),
    {
        let mut state = GameJamState::Idle;
        std::mem::swap(&mut state, &mut self.state.current_state);
        match state {
            GameJamState::Waiting { game, .. } => self.set_current(Some(game)),
            other => {
                self.state.current_state = other;
                Some("Not waiting for response at the moment".to_owned())
            },
        }
    }

    /// Tells `sender_name` where their game stands.
    pub fn queue(&self, sender_name: &str) -> (r: Option<String>)
        ensures
            opt_text(r) == queue_spec(self@, self.config, sender_name@),
    {
        let filter = GameFilter::Author(sender_name.to_owned());
        let mut reply = String::new();
        if self.config.queue_mode {
            let queue = self.state.submissions.queue.get_queue();
            let n = queue.len();
            let mut i: usize = 0;
            let mut found: Option<usize> = None;
            proof {
                lemma_first_match(self@.subs.queue.order(), filter@, 0);
            }
            while i < n
                invariant_except_break
                    found is None,
                invariant
                    n == queue@.len(),
                    i <= queue@.len(),
                    queue@.len() == self@.subs.queue.order().len(),
                    forall|k: int| 0 <= k < queue@.len() ==> (*#[trigger] queue@[k])@ == self@.subs.queue.order()[k],
                    first_match(self@.subs.queue.order(), filter@, 0) == first_match(
                        self@.subs.queue.order(),
                        filter@,
                        i as int,
                    ),
                ensures
                    match found {
                        Some(p) => first_match(self@.subs.queue.order(), filter@, 0) == Some(p as int) && p
                            < queue@.len(),
                        None => first_match(self@.subs.queue.order(), filter@, 0) is None,
                    },
                decreases queue@.len() - i,
            {
                if filter.test(queue[i]) {
                    found = Some(i);
                    break;
                }
                i = i + 1;
            }
            match found {
                Some(p) => {
                    reply.append(at_text(sender_name, ", your game is ").as_str());
                    reply.append(u64_to_string((p + 1) as u64).as_str());
                    reply.append(" in the queue. ");
                },
                None => {},
            }
        }
        proof {
            lemma_first_match(self@.subs.skipped, filter@, 0);
        }
        if crate::gamejam::submission::position(&self.state.submissions.skipped, &filter).is_some() {
            reply.append(
                at_text(
                    sender_name,
                    ", your game was skipped. You may return to the queue using !return command. ",
                ).as_str(),
            );
        }
        if self.config.queue_mode && self.config.google_sheet_config.is_none() {
            let total = self.state.submissions.queue.get_queue().len();
            if total == 0 {
                reply.append("The queue is empty");
            } else {
                reply.append("There are ");
                reply.append(u64_to_string(total as u64).as_str());
                reply.append(" games in the queue");
            }
        }
        match &self.config.google_sheet_config {
            Some(config) => {
                reply.append("Look at the current queue at: https://docs.google.com/spreadsheets/d/");
                reply.append(config.sheet_id.as_str());
                reply.append("/edit#gid=0");
            },
            None => {},
        }
        if reply.unicode_len() > 0 {
            Some(reply)
        } else {
            None
        }
    }

    /// Handles a chat message from `sender_name`: the author being waited
    /// for starts their game; with automatic returns, the sender's skipped
    /// game comes back.
    pub fn check_message(&mut self, sender_name: &str) -> (r: Option<String>)
        requires
            old(self).wf(),
        ensures
            final(self).wf(),
            final(self).config == old(self).config,
            (final(self)@, opt_text(r)) == check_message_spec(old(self)@, old(self).config, sender_name@),
    {
        let waiting_for_sender = match &self.state.current_state {
            GameJamState::Waiting { game, .. } => crate::gamejam::submission::contains_author(
                &game.authors,
                sender_name,
            ),
            _ => false,
        };
        if waiting_for_sender {
            let mut state = GameJamState::Idle;
            std::mem::swap(&mut state, &mut self.state.current_state);
            match state {
                GameJamState::Waiting { game, .. } => {
                    return self.set_current(Some(game));
                },
                other => {
                    self.state.current_state = other;
                },
            }
        }
        if self.config.auto_return {
            return self.return_game(sender_name);
        }
        None
    }

    /// Lets `delta_ms` milliseconds pass: where the author being waited
    /// for has run out of time, their game is skipped.
    pub fn update(&mut self, delta_ms: u128) -> (r: Option<String>)
        requires
            old(self).wf(),
        ensures
            final(self).wf(),
            final(self).config == old(self).config,
            (final(self)@, opt_text(r)) == update_spec(old(self)@, old(self).config, delta_ms),
    {
        let expired = match &mut self.state.current_state {
            GameJamState::Waiting { time_limit, .. } => {
                if delta_ms >= *time_limit {
                    true
                } else {
                    *time_limit = *time_limit - delta_ms;
                    false
                }
            },
            _ => false,
        };
        if expired {
            self.skip(true)
        } else {
            None
        }
    }

    fn push_played(&mut self, game: Submission)
        ensures
            final(self)@ == (JamView {
                subs: SubmissionsView { played: old(self)@.subs.played.push(game@), ..old(self)@.subs },
                played_saved: true,
                ..old(self)@
            }),
            final(self).config == old(self).config,
            final(self).state.raffle_weights == old(self).state.raffle_weights,
            final(self).state.current_state == old(self).state.current_state,
    {
        let ghost v = self.state.submissions.played_games@;
        self.state.submissions.played_games.push(game);
        self.played_games_changed = true;
        proof {
            crate::gamejam::queue::lemma_games_view_push(v, game);
        }
    }
}

/// Adds one to the weight of each entry of `joined` in `weights`.
fn bump_weights(weights: &mut LuckTable, joined: &LuckTable)
    requires
        old(weights).wf(),
        joined.wf(),
        forall|i: int| 0 <= i < joined@.len() ==> #[trigger] has_key(old(weights)@, joined@[i].0),
        forall|i: int| 0 <= i < joined@.len() ==> (#[trigger] lookup(old(weights)@, joined@[i].0))->0 < u32::MAX,
    ensures
        final(weights).wf(),
        final(weights)@ == bump_all(old(weights)@, joined@),
{
    let ghost w0 = weights@;
    let ghost j = joined@;
    let entries = joined.entries();
    let mut i: usize = 0;
    proof {
        assert(j.take(0) =~= Seq::<(Seq<char>, u32)>::empty());
    }
    while i < entries.len()
        invariant
            i <= entries@.len(),
            entries@.len() == j.len(),
            j == joined@,
            keys_unique(j),
            forall|k: int| 0 <= k < entries@.len() ==> (#[trigger] entries@[k]).0@ == j[k].0,
            forall|k: int| 0 <= k < j.len() ==> #[trigger] has_key(w0, j[k].0),
            forall|k: int| 0 <= k < j.len() ==> (#[trigger] lookup(w0, j[k].0))->0 < u32::MAX,
            keys_unique(w0),
            weights.wf(),
            weights@ == bump_all(w0, j.take(i as int)),
        decreases entries@.len() - i,
    {
        let ghost t = j.take(i as int);
        proof {
            assert forall|k: int| 0 <= k < t.len() implies #[trigger] has_key(w0, t[k].0) by {
                assert(t[k] == j[k]);
            }
            assert forall|k: int| 0 <= k < t.len() implies (#[trigger] lookup(w0, t[k].0))->0 < u32::MAX by {
                assert(t[k] == j[k]);
            }
            assert forall|a: int, b: int| 0 <= a < b < t.len() implies #[trigger] t[a].0 != #[trigger] t[b].0 by {
                assert(t[a] == j[a] && t[b] == j[b]);
            }
            lemma_bump(w0, t);
            assert forall|k: int| 0 <= k < t.len() implies t[k].0 != j[i as int].0 by {
                assert(t[k] == j[k]);
            }
            assert(has_key(w0, j[i as int].0));
            lemma_key_index(w0, j[i as int].0, 0);
            assert(j.take(i + 1).drop_last() =~= t);
            assert(j.take(i + 1).last() == j[i as int]);
        }
        weights.increment(entries[i].0.as_str());
        i = i + 1;
    }
    proof {
        assert(j.take(j.len() as int) =~= j);
    }
}

/// Whether every game of the list has an author.
fn all_authored(games: &Vec<Submission>) -> (b: bool)
    ensures
        b == authored(crate::gamejam::submission::games_view(games@)),
{
    let ghost g = crate::gamejam::submission::games_view(games@);
    let mut i: usize = 0;
    while i < games.len()
        invariant
            i <= games@.len(),
            g == crate::gamejam::submission::games_view(games@),
            forall|k: int| 0 <= k < i ==> (#[trigger] g[k]).authors.len() > 0,
        decreases games@.len() - i,
    {
        if games[i].authors.len() == 0 {
            assert(g[i as int] == games@[i as int]@);
            return false;
        }
        i = i + 1;
    }
    true
}

} // verus!
