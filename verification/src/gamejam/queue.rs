//! The queue of games to play: games returned to the queue are played
//! before newly submitted ones.

use std::collections::VecDeque;
use vstd::prelude::*;
use crate::gamejam::submission::{
    first_match, games_view, lemma_first_match, position, FilterView, GameFilter, GameView,
    Submission,
};

verus! {

/// Games waiting to be played.
pub struct GamesQueue {
    returned_queue: VecDeque<Submission>,
    games_queue: VecDeque<Submission>,
}

/// The model of the queue: the returned games, then the submitted ones.
#[verifier::ext_equal]
pub struct QueueView {
    pub returned: Seq<GameView>,
    pub games: Seq<GameView>,
}

impl QueueView {
    /// All queued games in the order they will be played.
    pub open spec fn order(self) -> Seq<GameView> {
        self.returned + self.games
    }

    /// The queue without its `i`-th game in playing order.
    pub open spec fn remove_at(self, i: int) -> QueueView {
        if i < self.returned.len() {
            QueueView { returned: without(self.returned, i), games: self.games }
        } else {
            QueueView { returned: self.returned, games: without(self.games, i - self.returned.len()) }
        }
    }

    /// The queue with its `i`-th game in playing order replaced by `g`.
    pub open spec fn set(self, i: int, g: GameView) -> QueueView {
        if i < self.returned.len() {
            QueueView { returned: self.returned.update(i, g), games: self.games }
        } else {
            QueueView { returned: self.returned, games: self.games.update(i - self.returned.len(), g) }
        }
    }
}

impl View for GamesQueue {
    type V = QueueView;

    closed spec fn view(&self) -> QueueView {
        QueueView { returned: games_view(self.returned_queue@), games: games_view(self.games_queue@) }
    }
}

/// `s` without its `i`-th element.
pub open spec fn without(s: Seq<GameView>, i: int) -> Seq<GameView> {
    s.subrange(0, i) + s.subrange(i + 1, s.len() as int)
}

pub proof fn lemma_games_view_remove(v: Seq<Submission>, i: int)
    requires
        0 <= i < v.len(),
    ensures
        games_view(v.remove(i)) == without(games_view(v), i),
        games_view(v)[i] == v[i]@,
{
    assert(games_view(v.remove(i)) =~= without(games_view(v), i));
}

pub proof fn lemma_games_view_push(v: Seq<Submission>, g: Submission)
    ensures
        games_view(v.push(g)) == games_view(v).push(g@),
{
    assert(games_view(v.push(g)) =~= games_view(v).push(g@));
}

pub proof fn lemma_games_view_push_front(v: Seq<Submission>, g: Submission)
    ensures
        games_view(seq![g] + v) == seq![g@] + games_view(v),
{
    assert(games_view(seq![g] + v) =~= seq![g@] + games_view(v));
}

pub proof fn lemma_games_view_append(a: Seq<Submission>, b: Seq<Submission>)
    ensures
        games_view(a + b) == games_view(a) + games_view(b),
{
    assert(games_view(a + b) =~= games_view(a) + games_view(b));
}

/// The `i`-th game of `v`, to be changed in place, by `IndexMut::index_mut`
/// of `VecDeque`: the contract says that it is the `i`-th element and that
/// what is written through it becomes the `i`-th element, the others
/// staying.
#[verifier::external_body]
fn deque_slot<T>(v: &mut VecDeque<T>, i: usize) -> (r: &mut T)
    requires
        i < old(v)@.len(),
    ensures
        *r == old(v)@[i as int],
        final(v)@ == old(v)@.update(i as int, *final(r)),
{
    &mut v[i]
}

/// The index of the first game in `games` that passes `filter`.
fn position_in(games: &VecDeque<Submission>, filter: &GameFilter) -> (r: Option<usize>)
    ensures
        match first_match(games_view(games@), filter@, 0) {
            Some(i) => r matches Some(j) && j == i,
            None => r is None,
        },
{
    let ghost s = games_view(games@);
    let mut i: usize = 0;
    while i < games.len()
        invariant
            i <= games@.len(),
            s == games_view(games@),
            first_match(s, filter@, 0) == first_match(s, filter@, i as int),
        decreases games@.len() - i,
    {
        proof {
            lemma_first_match(s, filter@, i as int);
        }
        if filter.test(&games[i]) {
            return Some(i);
        }
        i = i + 1;
    }
    None
}

/// Moves every game of `q`, in order, to the end of `r`.
fn drain_into(r: &mut Vec<Submission>, q: &mut VecDeque<Submission>)
    ensures
        games_view(final(r)@) == games_view(old(r)@) + games_view(old(q)@),
        final(q)@.len() == 0,
{
    let ghost total = games_view(r@) + games_view(q@);
    while q.len() > 0
        invariant
            games_view(r@) + games_view(q@) == total,
        decreases q@.len(),
    {
        let ghost before_r = r@;
        let ghost before_q = q@;
        match q.pop_front() {
            Some(g) => {
                r.push(g);
                proof {
                    lemma_games_view_push(before_r, g);
                    assert(before_q =~= seq![g] + q@);
                    lemma_games_view_push_front(q@, g);
                    assert(games_view(r@) + games_view(q@) =~= games_view(before_r) + games_view(before_q));
                }
            },
            None => {},
        }
    }
    proof {
        assert(games_view(q@) =~= Seq::<GameView>::empty());
        assert(games_view(r@) =~= total);
    }
}

/// Removes the first game of the deque `v` that passes `filter`.
fn remove_first_queued(v: &mut VecDeque<Submission>, filter: &GameFilter) -> (r: Option<Submission>)
    ensures
        match first_match(games_view(old(v)@), filter@, 0) {
            Some(i) => r matches Some(g) && g@ == games_view(old(v)@)[i] && games_view(final(v)@)
                == without(games_view(old(v)@), i),
            None => r is None && final(v)@ == old(v)@,
        },
{
    match position_in(v, filter) {
        Some(i) => {
            proof {
                lemma_first_match(games_view(v@), filter@, 0);
                assert(games_view(v@).len() == v@.len());
                lemma_games_view_remove(v@, i as int);
            }
            let ghost before = v@;
            let removed = v.remove(i);
            proof {
                assert(removed == Some(before[i as int]));
                assert(before == old(v)@);
                assert(games_view(before)[i as int] == before[i as int]@);
            }
            removed
        },
        None => None,
    }
}

/// Removes the first game of `v` that passes `filter`.
pub fn remove_first(v: &mut Vec<Submission>, filter: &GameFilter) -> (r: Option<Submission>)
    ensures
        match first_match(games_view(old(v)@), filter@, 0) {
            Some(i) => r matches Some(g) && g@ == games_view(old(v)@)[i] && games_view(final(v)@)
                == without(games_view(old(v)@), i),
            None => r is None && final(v)@ == old(v)@,
        },
{
    match position(v, filter) {
        Some(i) => {
            proof {
                lemma_first_match(games_view(v@), filter@, 0);
                assert(games_view(v@).len() == v@.len());
                lemma_games_view_remove(v@, i as int);
            }
            let ghost before = v@;
            let g = v.remove(i);
            proof {
                assert(g == before[i as int]);
                assert(before == old(v)@);
                assert(games_view(before)[i as int] == before[i as int]@);
                assert(g@ == games_view(old(v)@)[i as int]);
            }
            Some(g)
        },
        None => None,
    }
}

impl GamesQueue {
    /// An empty queue.
    pub fn new() -> (r: GamesQueue)
        ensures
            r@.returned.len() == 0,
            r@.games.len() == 0,
    {
        GamesQueue { returned_queue: VecDeque::new(), games_queue: VecDeque::new() }
    }

    /// The games returned to the queue, played first.
    pub fn returned(&self) -> (r: &VecDeque<Submission>)
        ensures
            games_view(r@) == self@.returned,
    {
        &self.returned_queue
    }

    /// The submitted games, played after the returned ones.
    pub fn submitted(&self) -> (r: &VecDeque<Submission>)
        ensures
            games_view(r@) == self@.games,
    {
        &self.games_queue
    }

    /// The queued games in the order they will be played.
    pub fn get_queue(&self) -> (r: Vec<&Submission>)
        ensures
            r@.len() == self@.order().len(),
            forall|i: int| 0 <= i < r@.len() ==> (*#[trigger] r@[i])@ == self@.order()[i],
    {
        let mut r: Vec<&Submission> = Vec::new();
        let mut i: usize = 0;
        while i < self.returned_queue.len()
            invariant
                i <= self.returned_queue@.len(),
                r@.len() == i,
                forall|j: int| 0 <= j < i ==> (*#[trigger] r@[j])@ == self@.order()[j],
            decreases self.returned_queue@.len() - i,
        {
            r.push(&self.returned_queue[i]);
            i = i + 1;
        }
        let mut k: usize = 0;
        while k < self.games_queue.len()
            invariant
                k <= self.games_queue@.len(),
                r@.len() == self.returned_queue@.len() + k,
                forall|j: int| 0 <= j < r@.len() ==> (*#[trigger] r@[j])@ == self@.order()[j],
            decreases self.games_queue@.len() - k,
        {
            r.push(&self.games_queue[k]);
            k = k + 1;
        }
        r
    }

    /// The `index`-th queued game in playing order, to be changed in place.
    pub fn get_queue_mut(&mut self, index: usize) -> (r: &mut Submission)
        requires
            index < old(self)@.order().len(),
        ensures
            (*r)@ == old(self)@.order()[index as int],
            final(self)@ == old(self)@.set(index as int, (*final(r))@),
    {
        let n = self.returned_queue.len();
        proof {
            assert(self@.returned.len() == n);
            assert(self@.order()[index as int] == if index < n {
                self@.returned[index as int]
            } else {
                self@.games[index - n]
            });
        }
        if index < n {
            deque_slot(&mut self.returned_queue, index)
        } else {
            deque_slot(&mut self.games_queue, index - n)
        }
    }

    /// Adds a newly submitted game at the end of the queue.
    pub fn queue_game(&mut self, game: Submission)
        ensures
            final(self)@.returned == old(self)@.returned,
            final(self)@.games == old(self)@.games.push(game@),
    {
        proof {
            lemma_games_view_push(self.games_queue@, game);
        }
        self.games_queue.push_back(game);
    }

    /// Puts a returned game after the other returned games, before the
    /// submitted ones.
    pub fn return_game(&mut self, game: Submission)
        ensures
            final(self)@.returned == old(self)@.returned.push(game@),
            final(self)@.games == old(self)@.games,
    {
        proof {
            lemma_games_view_push(self.returned_queue@, game);
        }
        self.returned_queue.push_back(game);
    }

    /// Puts a game at the very front of the queue.
    pub fn return_game_front(&mut self, game: Submission)
        ensures
            final(self)@.returned == seq![game@] + old(self)@.returned,
            final(self)@.games == old(self)@.games,
    {
        proof {
            lemma_games_view_push_front(self.returned_queue@, game);
        }
        self.returned_queue.push_front(game);
    }

    /// Takes the game to play next: the first returned game, else the
    /// first submitted one.
    pub fn next(&mut self) -> (r: Option<Submission>)
        ensures
            match queue_next(old(self)@) {
                (q, Some(g)) => r matches Some(x) && x@ == g && final(self)@ == q,
                (q, None) => r is None && final(self)@ == q,
            },
    {
        if self.returned_queue.len() > 0 {
            proof {
                lemma_games_view_remove(self.returned_queue@, 0);
                assert(self.returned_queue@.remove(0) =~= self.returned_queue@.subrange(
                    1,
                    self.returned_queue@.len() as int,
                ));
            }
            let g = self.returned_queue.pop_front();
            proof {
                assert(self@.returned =~= without(old(self)@.returned, 0));
            }
            g
        } else if self.games_queue.len() > 0 {
            proof {
                lemma_games_view_remove(self.games_queue@, 0);
                assert(self.games_queue@.remove(0) =~= self.games_queue@.subrange(
                    1,
                    self.games_queue@.len() as int,
                ));
            }
            let g = self.games_queue.pop_front();
            proof {
                assert(self@.games =~= without(old(self)@.games, 0));
            }
            g
        } else {
            None
        }
    }

    /// Empties the queue; returns its games in playing order.
    pub fn drain_all(&mut self) -> (r: Vec<Submission>)
        ensures
            games_view(r@) == old(self)@.order(),
            final(self)@.order().len() == 0,
            final(self)@.returned.len() == 0,
            final(self)@.games.len() == 0,
    {
        let mut r: Vec<Submission> = Vec::new();
        proof {
            assert(games_view(r@) =~= Seq::<GameView>::empty());
        }
        drain_into(&mut r, &mut self.returned_queue);
        drain_into(&mut r, &mut self.games_queue);
        proof {
            assert(self@.returned =~= Seq::<GameView>::empty());
            assert(self@.games =~= Seq::<GameView>::empty());
        }
        r
    }

    /// Removes the first queued game, in playing order, that passes
    /// `filter`.
    pub fn remove_game(&mut self, filter: &GameFilter) -> (r: Option<Submission>)
        ensures
            match first_match(old(self)@.order(), filter@, 0) {
                Some(i) => r matches Some(g) && g@ == old(self)@.order()[i] && final(self)@
                    == old(self)@.remove_at(i),
                None => r is None && final(self)@ == old(self)@,
            },
    {
        let ghost o = self@.order();
        let ghost ret = self@.returned;
        proof {
            lemma_first_match(o, filter@, 0);
            lemma_first_match(ret, filter@, 0);
        }
        match remove_first_queued(&mut self.returned_queue, filter) {
            Some(g) => {
                proof {
                    let i = first_match(ret, filter@, 0)->0;
                    assert(o[i] == ret[i]);
                    assert(forall|k: int| 0 <= k < ret.len() ==> o[k] == ret[k]);
                    lemma_first_match_prefix(o, ret, filter@, 0);
                }
                Some(g)
            },
            None => {
                let ghost gms = self@.games;
                proof {
                    lemma_first_match(gms, filter@, 0);
                }
                let r = remove_first_queued(&mut self.games_queue, filter);
                proof {
                    lemma_first_match_shift(ret, gms, filter@);
                    match first_match(gms, filter@, 0) {
                        Some(i) => {
                            assert(o[ret.len() + i] == gms[i]);
                        },
                        None => {},
                    }
                }
                r
            },
        }
    }
}

/// The queue after taking the game to play next, and that game.
pub open spec fn queue_next(q: QueueView) -> (QueueView, Option<GameView>) {
    if q.returned.len() > 0 {
        (q.remove_at(0), Some(q.returned[0]))
    } else if q.games.len() > 0 {
        (q.remove_at(0), Some(q.games[0]))
    } else {
        (q, None)
    }
}

/// Taking the next game takes the first game in playing order.
pub proof fn law_next_takes_first(q: QueueView)
    ensures
        match queue_next(q) {
            (r, Some(g)) => q.order().len() > 0 && g == q.order()[0] && r.order() =~= q.order().subrange(
                1,
                q.order().len() as int,
            ),
            (r, None) => q.order().len() == 0 && r == q,
        },
{
}

/// Removing the `i`-th game in playing order removes it from the order.
pub proof fn law_remove_keeps_order(q: QueueView, i: int)
    requires
        0 <= i < q.order().len(),
    ensures
        q.remove_at(i).order() =~= without(q.order(), i),
{
}

/// A first match in a prefix is the first match in the whole sequence.
pub proof fn lemma_first_match_prefix(
    o: Seq<GameView>,
    p: Seq<GameView>,
    f: FilterView,
    i: int,
)
    requires
        0 <= i <= p.len() <= o.len(),
        forall|k: int| 0 <= k < p.len() ==> o[k] == p[k],
        first_match(p, f, i) is Some,
    ensures
        first_match(o, f, i) == first_match(p, f, i),
    decreases p.len() - i,
{
    if i < p.len() && !matches_at(p, f, i) {
        lemma_first_match_prefix(o, p, f, i + 1);
    }
}

pub open spec fn matches_at(s: Seq<GameView>, f: FilterView, i: int) -> bool {
    crate::gamejam::submission::passes(f, s[i])
}

/// Without a match in `a`, the first match in `a + b` is the first in `b`,
/// shifted.
pub proof fn lemma_first_match_shift(a: Seq<GameView>, b: Seq<GameView>, f: FilterView)
    requires
        first_match(a, f, 0) is None,
    ensures
        first_match(a + b, f, 0) == match first_match(b, f, 0) {
            Some(i) => Some(a.len() + i),
            None => None,
        },
{
    lemma_first_match(a, f, 0);
    lemma_first_match_skip(a, b, f, 0);
    lemma_first_match_offset(a, b, f, 0);
}

proof fn lemma_first_match_skip(a: Seq<GameView>, b: Seq<GameView>, f: FilterView, i: int)
    requires
        0 <= i <= a.len(),
        forall|k: int| 0 <= k < a.len() ==> !crate::gamejam::submission::passes(f, #[trigger] a[k]),
    ensures
        first_match(a + b, f, i) == first_match(a + b, f, a.len() as int),
    decreases a.len() - i,
{
    if i < a.len() {
        assert((a + b)[i] == a[i]);
        lemma_first_match_skip(a, b, f, i + 1);
    }
}

proof fn lemma_first_match_offset(a: Seq<GameView>, b: Seq<GameView>, f: FilterView, j: int)
    requires
        0 <= j <= b.len(),
    ensures
        first_match(a + b, f, a.len() + j) == match first_match(b, f, j) {
            Some(i) => Some(a.len() + i),
            None => None,
        },
    decreases b.len() - j,
{
    if j < b.len() {
        assert((a + b)[a.len() + j] == b[j]);
        lemma_first_match_offset(a, b, f, j + 1);
    }
}

} // verus!
