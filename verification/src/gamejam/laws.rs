//! What the game-jam bot's commands promise together.

use vstd::prelude::*;
use crate::gamejam::bot::{
    bump_all, current_of, jam_wf, raffle_finish_ok, raffle_finish_with_spec, set_current_spec, skip_all_spec,
    skip_spec, submit_spec, unskip_spec, find_spec, new_game, check_link_spec, next_spec, force_spec,
    GameJamConfig, JamView,
    StateView,
};
use crate::gamejam::queue::{queue_next, without, QueueView};
use crate::gamejam::submission::{FilterView, GameView};
use crate::gamejam::submissions::remove_spec;
use crate::table::{has_key, keys_unique, lemma_bump, lemma_key_index, lemma_remove_unique, lookup, remove_key};
use crate::table::{lemma_upsert_keys, lemma_upsert_unique, upsert};
use crate::gamejam::bot::{check_message_spec, raffle_join_spec, return_game_spec};
use crate::gamejam::submission::{has_author, lemma_first_match};

verus! {

/// Games are played in the order they were queued: a game queued after
/// the others is played after all of them, and returned games come first.
pub proof fn law_queue_order(q: QueueView, g: GameView)
    ensures
        queue_next(QueueView { games: q.games.push(g), ..q }).1 == Some(
            if q.order().len() > 0 {
                q.order()[0]
            } else {
                g
            },
        ),
        (QueueView { games: q.games.push(g), ..q }).order() == q.order().push(g),
{
    assert((QueueView { games: q.games.push(g), ..q }).order() =~= q.order().push(g));
}

/// `!unskip` undoes `!skip`: the skipped game is played again and the
/// queue and the lists are as they were.
pub proof fn law_unskip_undoes_skip(v: JamView, c: GameJamConfig)
    requires
        current_of(v.state) is Some,
    ensures
        unskip_spec(skip_spec(v, c, false).0, None).0.state == (StateView::Playing {
            game: current_of(v.state)->0,
        }),
        unskip_spec(skip_spec(v, c, false).0, None).0.subs == v.subs,
{
    let g = current_of(v.state)->0;
    let s = v.subs.skipped;
    assert(without(s.push(g), s.len() as int) =~= s);
}

/// `!skip all` moves every queued game, in playing order, to the end of
/// the skipped list; no game is lost and the played ones stay.
pub proof fn law_skip_all_keeps_games(v: JamView)
    ensures
        skip_all_spec(v).0.subs.queue.order().len() == 0,
        skip_all_spec(v).0.subs.skipped == v.subs.skipped + v.subs.queue.order(),
        skip_all_spec(v).0.subs.played == v.subs.played,
        skip_all_spec(v).0.state == v.state,
{
    assert(skip_all_spec(v).0.subs.queue.order() =~= Seq::<GameView>::empty());
}

/// A closed queue refuses every submission and changes nothing.
pub proof fn law_closed_queue_refuses(v: JamView, c: GameJamConfig, link: Seq<char>, sender: Seq<char>)
    requires
        !v.open,
    ensures
        submit_spec(v, c, link, sender) == (
            v,
            Some("The queue is closed. You can not submit your game at the moment."@),
        ),
{
}

/// With a link start set, a link that does not begin with it is refused.
pub proof fn law_link_start_checked(v: JamView, c: GameJamConfig, link: Seq<char>, sender: Seq<char>)
    requires
        v.open,
        !check_link_spec(c, link),
    ensures
        submit_spec(v, c, link, sender).0 == v,
{
}

/// A new link from a sender who may submit goes to the end of the queue
/// with the sender as its only author.
pub proof fn law_submit_queues(v: JamView, c: GameJamConfig, link: Seq<char>, sender: Seq<char>)
    requires
        v.open,
        check_link_spec(c, link),
        c.multiple_submissions || find_spec(v, FilterView::Author(sender)) is None,
        find_spec(v, FilterView::Link(link)) is None,
    ensures
        submit_spec(v, c, link, sender).0.subs.queue.order() == v.subs.queue.order().push(new_game(sender, link)),
        submit_spec(v, c, link, sender).0.subs.skipped == v.subs.skipped,
        submit_spec(v, c, link, sender).0.subs.played == v.subs.played,
{
    let q = v.subs.queue;
    assert((QueueView { games: q.games.push(new_game(sender, link)), ..q }).order() =~= q.order().push(
        new_game(sender, link),
    ));
}

/// Playing another game moves the one played until now to the end of the
/// played list.
pub proof fn law_played_games_kept(v: JamView, game: Option<GameView>)
    ensures
        set_current_spec(v, game).0.subs.played == match current_of(v.state) {
            Some(g) => v.subs.played.push(g),
            None => v.subs.played,
        },
        set_current_spec(v, game).0.state == match game {
            Some(g) => StateView::Playing { game: g },
            None => StateView::Idle,
        },
{
}

/// Finishing a raffle adds one to the saved weight of every entry but the
/// winner, whose weight is dropped as its game is played.
pub proof fn law_raffle_finish_weights(v: JamView, winner: Option<int>)
    requires
        jam_wf(v),
        v.state is Raffle,
        raffle_finish_ok(v, winner),
    ensures
        forall|i: int|
            0 <= i < v.state->joined.len() && (winner matches Some(w) ==> v.state->joined[w].0
                != v.state->joined[i].0) ==> #[trigger] lookup(
                raffle_finish_with_spec(v, winner).0.weights,
                v.state->joined[i].0,
            ) == Some((lookup(v.weights, v.state->joined[i].0)->0 + 1) as u32),
        winner matches Some(w) ==> !has_key(
            raffle_finish_with_spec(v, winner).0.weights,
            v.state->joined[w].0,
        ),
{
    let joined = v.state->joined;
    lemma_bump(v.weights, joined);
    let b = bump_all(v.weights, joined);
    match winner {
        Some(w) => {
            let link = joined[w].0;
            let (subs, g) = remove_spec(v.subs, FilterView::Link(link));
            crate::gamejam::submission::lemma_first_match(v.subs.queue.order(), FilterView::Link(link), 0);
            crate::gamejam::submission::lemma_first_match(v.subs.skipped, FilterView::Link(link), 0);
            assert(g->0.link == link);
            lemma_remove_unique(b, link);
            lemma_key_index(remove_key(b, link), link, 0);
            crate::table::lemma_remove_keys(b, link, link);
            assert(raffle_finish_with_spec(v, winner).0.weights == remove_key(b, link));
            assert forall|i: int|
                0 <= i < joined.len() && link != joined[i].0 implies #[trigger] lookup(
                raffle_finish_with_spec(v, winner).0.weights,
                joined[i].0,
            ) == Some((lookup(v.weights, joined[i].0)->0 + 1) as u32) by {
                assert(lookup(remove_key(b, link), joined[i].0) == lookup(b, joined[i].0));
            }
        },
        None => {},
    }
}

/// `!next` without confirmation plays the first game of the queue; the
/// game played until then goes to the played list.
pub proof fn law_next_plays_first(v: JamView, c: GameJamConfig, confirm: bool)
    requires
        v.subs.queue.order().len() > 0,
        !confirm || c.response_time_limit is None,
    ensures
        next_spec(v, c, None, confirm).0.state == (StateView::Playing { game: v.subs.queue.order()[0] }),
        next_spec(v, c, None, confirm).0.subs.queue.order() == v.subs.queue.order().drop_first(),
        next_spec(v, c, None, confirm).0.subs.played == match current_of(v.state) {
            Some(g) => v.subs.played.push(g),
            None => v.subs.played,
        },
{
    crate::gamejam::queue::law_next_takes_first(v.subs.queue);
    assert(v.subs.queue.order().drop_first() =~= v.subs.queue.order().subrange(1, v.subs.queue.order().len() as int));
}

/// `!skip` moves the current game to the end of the skipped list.
pub proof fn law_skip_moves_to_skipped(v: JamView, c: GameJamConfig)
    requires
        current_of(v.state) is Some,
    ensures
        skip_spec(v, c, false).0.subs.skipped == v.subs.skipped.push(current_of(v.state)->0),
        skip_spec(v, c, false).0.state == StateView::Idle,
        skip_spec(v, c, false).0.subs.queue == v.subs.queue,
{
}

/// `!force` plays the game whose author has not answered.
pub proof fn law_force_plays_awaited(v: JamView)
    requires
        v.state is Waiting,
    ensures
        force_spec(v).0.state == (StateView::Playing { game: v.state->Waiting_game }),
        force_spec(v).0.subs.played == v.subs.played,
{
}


/// `!unskip <author>`, where that author has a skipped game, plays a game
/// of which they are an author, and that game, and only it, leaves the
/// skipped list.
pub proof fn law_unskip_author_plays_theirs(v: JamView, a: Seq<char>)
    requires
        exists|k: int| 0 <= k < v.subs.skipped.len() && has_author(#[trigger] v.subs.skipped[k], a),
    ensures
        current_of(unskip_spec(v, Some(a)).0.state) matches Some(g) && has_author(g, a) && exists|k: int|
            0 <= k < v.subs.skipped.len() && v.subs.skipped[k] == g && unskip_spec(v, Some(a)).0.subs.skipped
                == v.subs.skipped.remove(k),
{
    let s = v.subs.skipped;
    lemma_first_match(s, FilterView::Author(a), 0);
    let i = first_match_index(s, a);
    assert(without(s, i) =~= s.remove(i));
}

/// The index of the first skipped game of `a`.
spec fn first_match_index(s: Seq<GameView>, a: Seq<char>) -> int {
    crate::gamejam::submission::first_match(s, FilterView::Author(a), 0)->0
}

/// `!next <author>` plays a game of that author whenever one is queued or
/// skipped (waiting for them first where the bot waits for answers); it
/// answers that no game was found only when neither list holds one, and
/// then plays nothing.
pub proof fn law_next_author_finds_theirs(v: JamView, c: GameJamConfig, a: Seq<char>, confirm: bool)
    ensures
        ((exists|k: int|
            0 <= k < v.subs.queue.order().len() && has_author(#[trigger] v.subs.queue.order()[k], a)) || (exists|
            k: int,
        | 0 <= k < v.subs.skipped.len() && has_author(#[trigger] v.subs.skipped[k], a))) ==> (current_of(
            next_spec(v, c, Some(a), confirm).0.state,
        ) matches Some(g) && has_author(g, a)),
        !((exists|k: int|
            0 <= k < v.subs.queue.order().len() && has_author(#[trigger] v.subs.queue.order()[k], a)) || (exists|
            k: int,
        | 0 <= k < v.subs.skipped.len() && has_author(#[trigger] v.subs.skipped[k], a))) ==> next_spec(
            v,
            c,
            Some(a),
            confirm,
        ).1 == Some("Couldn't find a game from "@ + a) && current_of(next_spec(v, c, Some(a), confirm).0.state)
            is None,
{
    lemma_first_match(v.subs.queue.order(), FilterView::Author(a), 0);
    lemma_first_match(v.subs.skipped, FilterView::Author(a), 0);
}

/// A chat message from someone the bot is not waiting for, with automatic
/// returns set, does what `!return` from them does.
pub proof fn law_auto_return_on_message(v: JamView, c: GameJamConfig, sender: Seq<char>)
    requires
        c.auto_return,
        !(v.state matches StateView::Waiting { game, .. } && has_author(game, sender)),
    ensures
        check_message_spec(v, c, sender) == return_game_spec(v, c, sender),
{
}

/// Every entry of a running raffle carries the luck saved for its game:
/// joining keeps that so, and the saved luck of every game stays.
pub proof fn law_raffle_join_uses_saved_luck(v: JamView, c: GameJamConfig, sender: Seq<char>)
    requires
        keys_unique(v.weights),
        v.state matches StateView::Raffle { joined } && keys_unique(joined) && forall|l: Seq<char>|
            has_key(joined, l) ==> #[trigger] lookup(joined, l) == lookup(v.weights, l),
    ensures
        raffle_join_spec(v, c, sender).0.state matches StateView::Raffle { joined } && forall|l: Seq<char>|
            has_key(joined, l) ==> #[trigger] lookup(joined, l) == lookup(raffle_join_spec(v, c, sender).0.weights, l),
        forall|l: Seq<char>|
            lookup(v.weights, l) is Some ==> #[trigger] lookup(raffle_join_spec(v, c, sender).0.weights, l) == lookup(
                v.weights,
                l,
            ),
{
    let joined = v.state->joined;
    let r = raffle_join_spec(v, c, sender).0;
    match crate::gamejam::submissions::locate(v.subs, FilterView::Author(sender)) {
        Some(s) => {
            if crate::gamejam::submissions::slot_type(s) != crate::gamejam::submission::GameType::Played {
                let link = crate::gamejam::submissions::game_at(v.subs, s).link;
                lemma_key_index(v.weights, link, 0);
                let (w, weights) = match lookup(v.weights, link) {
                    Some(x) => (x, v.weights),
                    None => (c.raffle_default_weight, v.weights.push((link, c.raffle_default_weight))),
                };
                if lookup(v.weights, link) is None {
                    assert(weights == upsert(v.weights, link, c.raffle_default_weight));
                    lemma_upsert_unique(v.weights, link, c.raffle_default_weight);
                }
                assert(r.weights == weights);
                assert(lookup(weights, link) == Some(w));
                lemma_upsert_unique(joined, link, w);
                assert forall|l: Seq<char>| has_key(upsert(joined, link, w), l) implies #[trigger] lookup(
                    upsert(joined, link, w),
                    l,
                ) == lookup(weights, l) by {
                    lemma_upsert_keys(joined, link, w, l);
                    if l != link {
                        assert(has_key(joined, l));
                        assert(lookup(joined, l) == lookup(v.weights, l));
                        assert(lookup(weights, l) == lookup(v.weights, l));
                    }
                }
            }
        },
        None => {},
    }
}

} // verus!
