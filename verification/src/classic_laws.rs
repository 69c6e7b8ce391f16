//! What the first game-jam bot's commands promise together.

use vstd::prelude::*;
use crate::classic::{
    has_name, link_ok, next_spec, remove_spec, set_current_spec, skip_spec, submit_spec, unskip_spec, ClassicView,
    GameJamConfig,
};
use crate::classic_commands::{classic_perform_spec, ClassicCommand};
use crate::table::remove_key;

verus! {

/// `!next` plays the first game of the queue, returned games first, and the
/// rest of the queue keeps its order; the game played until then goes to
/// the played list.
pub proof fn law_classic_next_plays_first(v: ClassicView, c: GameJamConfig)
    requires
        v.returned.len() + v.games.len() > 0,
    ensures
        next_spec(v, c, None, false).0.current == Some((v.returned + v.games)[0]),
        next_spec(v, c, None, false).0.returned + next_spec(v, c, None, false).0.games == (v.returned
            + v.games).drop_first(),
        next_spec(v, c, None, false).0.played == match v.current {
            Some(g) => v.played.push(g),
            None => v.played,
        },
{
    if v.returned.len() > 0 {
        assert(v.returned.drop_first() + v.games =~= (v.returned + v.games).drop_first());
    } else {
        assert(v.returned + v.games =~= v.games);
        assert(v.returned + v.games.drop_first() =~= v.games.drop_first());
    }
}

/// The author of an optional game (empty where there is none).
pub open spec fn author_of(g: Option<(Seq<char>, Seq<char>)>) -> Seq<char> {
    match g {
        Some(x) => x.0,
        None => Seq::empty(),
    }
}

/// `!unskip` undoes `!skip`: the skipped game is played again, and the
/// queue and the skipped and played lists are as they were.
pub proof fn law_classic_unskip_undoes_skip(v: ClassicView, c: GameJamConfig)
    requires
        v.current is Some,
    ensures
        unskip_spec(skip_spec(v, c, false).0).0.current == v.current,
        unskip_spec(skip_spec(v, c, false).0).0.returned == v.returned,
        unskip_spec(skip_spec(v, c, false).0).0.games == v.games,
        unskip_spec(skip_spec(v, c, false).0).0.skipped == v.skipped,
        unskip_spec(skip_spec(v, c, false).0).0.played == v.played,
        unskip_spec(skip_spec(v, c, false).0).0.weights == remove_key(v.weights, author_of(v.current)),
{
    assert(v.skipped.push(v.current->0).drop_last() =~= v.skipped);
}

/// A closed queue refuses every submission and changes nothing.
pub proof fn law_classic_closed_refuses(v: ClassicView, c: GameJamConfig, link: Seq<char>, sender: Seq<char>)
    requires
        !v.open,
    ensures
        submit_spec(v, c, link, sender) == (
            v,
            "The queue is closed. You can not submit your game at the moment."@,
        ),
{
}

/// A link that was never submitted, on an open queue and with an accepted
/// start, goes to the end of the queue under its sender's name; nothing
/// else changes but the mark to save.
pub proof fn law_classic_submit_queues(v: ClassicView, c: GameJamConfig, link: Seq<char>, sender: Seq<char>)
    requires
        v.open,
        link_ok(c, link),
        !(v.current matches Some(g) && g.1 == link),
        !has_name(v.returned + v.games, link),
        !has_name(v.skipped, link),
        !has_name(v.played, link),
    ensures
        submit_spec(v, c, link, sender).0 == (ClassicView {
            games: v.games.push((sender, link)),
            saved: true,
            ..v
        }),
{
}

/// Setting the current game keeps the played list and adds at most the
/// game played until then.
proof fn lemma_set_current_played(v: ClassicView, g: Option<(Seq<char>, Seq<char>)>)
    ensures
        v.played.is_prefix_of(set_current_spec(v, g).0.played),
{
    assert(v.played.is_prefix_of(v.played));
    if let Some(x) = v.current {
        assert(v.played.is_prefix_of(v.played.push(x)));
    }
}

proof fn lemma_remove_played(v: ClassicView, a: Seq<char>)
    ensures
        remove_spec(v, a).0.played == v.played,
{
}

proof fn lemma_next_played(v: ClassicView, c: GameJamConfig, a: Option<Seq<char>>, confirm: bool)
    ensures
        v.played.is_prefix_of(next_spec(v, c, a, confirm).0.played),
{
    match a {
        Some(x) => {
            lemma_remove_played(v, x);
            let w = ClassicView { waiting: false, ..remove_spec(v, x).0 };
            lemma_set_current_played(w, remove_spec(v, x).1);
            lemma_set_current_played(w, None);
        },
        None => {
            let v1 = if v.returned.len() > 0 {
                ClassicView { returned: v.returned.drop_first(), waiting: false, ..v }
            } else if v.games.len() > 0 {
                ClassicView { games: v.games.drop_first(), waiting: false, ..v }
            } else {
                ClassicView { waiting: false, ..v }
            };
            let g = if v.returned.len() > 0 {
                Some(v.returned[0])
            } else if v.games.len() > 0 {
                Some(v.games[0])
            } else {
                None
            };
            lemma_set_current_played(v1, g);
            lemma_set_current_played(v1, None);
        },
    }
}

/// No command forgets a played game: the played list after any command
/// begins with the played list before it.
pub proof fn law_classic_played_kept(
    v: ClassicView,
    c: GameJamConfig,
    cmd: ClassicCommand,
    sender: Seq<char>,
    args: Seq<Seq<char>>,
    winner: Option<int>,
)
    ensures
        v.played.is_prefix_of(classic_perform_spec(v, c, cmd, sender, args, winner).0.played),
{
    assert(v.played.is_prefix_of(v.played));
    match cmd {
        ClassicCommand::NextQueued => lemma_next_played(v, c, None, true),
        ClassicCommand::NextAuthor => lemma_next_played(v, c, Some(args[0]), false),
        ClassicCommand::CancelOwn => lemma_remove_played(v, sender),
        ClassicCommand::CancelAuthor => lemma_remove_played(v, args[0]),
        ClassicCommand::SkipNext | ClassicCommand::Skip => {
            if let Some(g) = v.current {
                let v1 = ClassicView { current: None, skipped: v.skipped.push(g), ..v };
                lemma_next_played(v1, c, None, true);
            }
        },
        ClassicCommand::Unskip => {
            if v.skipped.len() > 0 {
                let v1 = ClassicView { skipped: v.skipped.drop_last(), waiting: false, ..v };
                let v2 = match v1.current {
                    Some(g) => ClassicView { current: None, returned: seq![g] + v1.returned, ..v1 },
                    None => v1,
                };
                lemma_set_current_played(v2, Some(v.skipped.last()));
            }
        },
        ClassicCommand::Stop => lemma_set_current_played(ClassicView { waiting: false, ..v }, None),
        ClassicCommand::RaffleFinish => {
            if let Some(j) = v.raffle {
                if let Some(i) = winner {
                    let v1 = ClassicView { raffle: None, weights: crate::gamejam::bot::bump_all(v.weights, j), ..v };
                    lemma_remove_played(v1, j[i].0);
                    lemma_set_current_played(remove_spec(v1, j[i].0).0, remove_spec(v1, j[i].0).1);
                }
            }
        },
        _ => {},
    }
}

} // verus!
