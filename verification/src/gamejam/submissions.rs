//! All submitted games: the queue, the skipped games and the played ones.

use vstd::prelude::*;
use crate::gamejam::queue::{without, GamesQueue, QueueView};
use crate::gamejam::queue::remove_first;
use crate::gamejam::submission::{
    first_match, games_view, lemma_first_match, position, FilterView, GameFilter, GameType,
    GameView, Submission,
};

verus! {

/// All submitted games that are not being played.
pub struct Submissions {
    pub queue: GamesQueue,
    pub played_games: Vec<Submission>,
    pub skipped: Vec<Submission>,
}

/// The model of the submissions.
#[verifier::ext_equal]
pub struct SubmissionsView {
    pub queue: QueueView,
    pub played: Seq<GameView>,
    pub skipped: Seq<GameView>,
}

impl View for Submissions {
    type V = SubmissionsView;

    open spec fn view(&self) -> SubmissionsView {
        SubmissionsView {
            queue: self.queue@,
            played: games_view(self.played_games@),
            skipped: games_view(self.skipped@),
        }
    }
}

/// Where a game stands among the submissions.
pub enum Slot {
    /// The `i`-th game of the queue in playing order.
    Queue(int),
    Skipped(int),
    Played(int),
}

/// Where the first game that passes `f` stands: the queue is searched
/// first, then the skipped games, then the played ones.
pub open spec fn locate(v: SubmissionsView, f: FilterView) -> Option<Slot> {
    match first_match(v.queue.order(), f, 0) {
        Some(i) => Some(Slot::Queue(i)),
        None => match first_match(v.skipped, f, 0) {
            Some(i) => Some(Slot::Skipped(i)),
            None => match first_match(v.played, f, 0) {
                Some(i) => Some(Slot::Played(i)),
                None => None,
            },
        },
    }
}

/// The game at a slot.
pub open spec fn game_at(v: SubmissionsView, s: Slot) -> GameView {
    match s {
        Slot::Queue(i) => v.queue.order()[i],
        Slot::Skipped(i) => v.skipped[i],
        Slot::Played(i) => v.played[i],
    }
}

/// What kind of game stands at a slot.
pub open spec fn slot_type(s: Slot) -> GameType {
    match s {
        Slot::Queue(_) => GameType::Queued,
        Slot::Skipped(_) => GameType::Skipped,
        Slot::Played(_) => GameType::Played,
    }
}

/// The submissions with the game at a slot replaced by `g`.
pub open spec fn set_at(v: SubmissionsView, s: Slot, g: GameView) -> SubmissionsView {
    match s {
        Slot::Queue(i) => SubmissionsView { queue: v.queue.set(i, g), ..v },
        Slot::Skipped(i) => SubmissionsView { skipped: v.skipped.update(i, g), ..v },
        Slot::Played(i) => SubmissionsView { played: v.played.update(i, g), ..v },
    }
}

/// The submissions after removing the first game that passes `f`, looking
/// in the queue, then among the skipped games; and that game.
pub open spec fn remove_spec(v: SubmissionsView, f: FilterView) -> (SubmissionsView, Option<GameView>) {
    match first_match(v.queue.order(), f, 0) {
        Some(i) => (SubmissionsView { queue: v.queue.remove_at(i), ..v }, Some(v.queue.order()[i])),
        None => match first_match(v.skipped, f, 0) {
            Some(i) => (SubmissionsView { skipped: without(v.skipped, i), ..v }, Some(v.skipped[i])),
            None => (v, None),
        },
    }
}

/// A slot found by `locate` is in range and holds a game that passes `f`.
pub proof fn lemma_locate(v: SubmissionsView, f: FilterView)
    ensures
        locate(v, f) matches Some(s) ==> (match s {
            Slot::Queue(i) => 0 <= i < v.queue.order().len(),
            Slot::Skipped(i) => 0 <= i < v.skipped.len(),
            Slot::Played(i) => 0 <= i < v.played.len(),
        }) && crate::gamejam::submission::passes(f, game_at(v, s)),
{
    lemma_first_match(v.queue.order(), f, 0);
    lemma_first_match(v.skipped, f, 0);
    lemma_first_match(v.played, f, 0);
}

impl Submissions {
    /// No games at all.
    pub fn new() -> (r: Submissions)
        ensures
            r@.queue.order().len() == 0,
            r@.played.len() == 0,
            r@.skipped.len() == 0,
    {
        let r = Submissions { queue: GamesQueue::new(), played_games: Vec::new(), skipped: Vec::new() };
        proof {
            assert(r@.played =~= Seq::<GameView>::empty());
            assert(r@.skipped =~= Seq::<GameView>::empty());
        }
        r
    }

    /// Removes the first game that passes `filter`, looking in the queue,
    /// then among the skipped games.
    pub fn remove_game(&mut self, filter: &GameFilter) -> (r: Option<Submission>)
        ensures
            match remove_spec(old(self)@, filter@) {
                (v, Some(g)) => r matches Some(x) && x@ == g && final(self)@ == v,
                (v, None) => r is None && final(self)@ == v,
            },
    {
        match self.queue.remove_game(filter) {
            Some(g) => Some(g),
            None => remove_first(&mut self.skipped, filter),
        }
    }

    /// The first game that passes `filter`, looking in the queue, then
    /// among the skipped games, then among the played ones.
    pub fn find_game(&self, filter: &GameFilter) -> (r: Option<(&Submission, GameType)>)
        ensures
            match locate(self@, filter@) {
                Some(s) => r matches Some((g, t)) && g@ == game_at(self@, s) && t == slot_type(s),
                None => r is None,
            },
    {
        proof {
            lemma_locate(self@, filter@);
        }
        let queue = self.queue.get_queue();
        let mut i: usize = 0;
        while i < queue.len()
            invariant
                i <= queue@.len(),
                queue@.len() == self@.queue.order().len(),
                forall|k: int| 0 <= k < queue@.len() ==> (*#[trigger] queue@[k])@ == self@.queue.order()[k],
                first_match(self@.queue.order(), filter@, 0) == first_match(
                    self@.queue.order(),
                    filter@,
                    i as int,
                ),
            decreases queue@.len() - i,
        {
            if filter.test(queue[i]) {
                return Some((queue[i], GameType::Queued));
            }
            i = i + 1;
        }
        match position(&self.skipped, filter) {
            Some(i) => {
                return Some((&self.skipped[i], GameType::Skipped));
            },
            None => {},
        }
        match position(&self.played_games, filter) {
            Some(i) => Some((&self.played_games[i], GameType::Played)),
            None => None,
        }
    }

    /// Like `find_game`, but the game found can be changed in place.
    pub fn find_game_mut(&mut self, filter: &GameFilter) -> (r: Option<(&mut Submission, GameType)>)
        ensures
            match locate(old(self)@, filter@) {
                Some(s) => r matches Some((g, t)) && (*g)@ == game_at(old(self)@, s) && t == slot_type(
                    s,
                ) && final(self)@ == set_at(old(self)@, s, (*final(g))@),
                None => r is None && final(self)@ == old(self)@,
            },
    {
        proof {
            lemma_locate(self@, filter@);
        }
        let ghost start = self@;
        let mut found: Option<usize> = None;
        {
            let queue = self.queue.get_queue();
            let mut i: usize = 0;
            while i < queue.len()
                invariant_except_break
                    found is None,
                invariant
                    i <= queue@.len(),
                    queue@.len() == self@.queue.order().len(),
                    forall|k: int|
                        0 <= k < queue@.len() ==> (*#[trigger] queue@[k])@ == self@.queue.order()[k],
                    first_match(self@.queue.order(), filter@, 0) == first_match(
                        self@.queue.order(),
                        filter@,
                        i as int,
                    ),
                ensures
                    match found {
                        Some(j) => first_match(self@.queue.order(), filter@, 0) == Some(j as int) && j
                            < self@.queue.order().len(),
                        None => first_match(self@.queue.order(), filter@, 0) is None,
                    },
                decreases queue@.len() - i,
            {
                if filter.test(queue[i]) {
                    found = Some(i);
                    break;
                }
                i = i + 1;
            }
        }
        match found {
            Some(i) => {
                let g = self.queue.get_queue_mut(i);
                return Some((g, GameType::Queued));
            },
            None => {},
        }
        match position(&self.skipped, filter) {
            Some(i) => {
                let g = &mut self.skipped[i];
                return Some((g, GameType::Skipped));
            },
            None => {},
        }
        match position(&self.played_games, filter) {
            Some(i) => {
                let g = &mut self.played_games[i];
                Some((g, GameType::Played))
            },
            None => None,
        }
    }
}

} // verus!
