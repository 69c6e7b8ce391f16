//! The chat commands of the game-jam bot: the command tree and what each
//! command does.

use vstd::prelude::*;
use crate::commands::{
    child, final_node as fin, is_literal, literal_node as lit, literal_runs, runs, two_words_run,
    word_node as word, word_runs, AuthorityLevel, BotCommands,
};
use crate::gamejam::bot::{
    authors_add_spec, authors_remove_spec, check_link_spec, force_spec, jam_wf, luck_spec, next_spec,
    opt_text, possible_winner, queue_spec, raffle_can_finish, raffle_cancel_spec, raffle_finish_with_spec,
    raffle_join_spec, raffle_joined, raffle_start_spec, remove_response_spec, return_game_spec, saved,
    set_current_spec, skip_all_spec, skip_spec, submit_spec, unskip_spec, GameJamConfig, GamejamBot,
    GameJamState, JamView, StateView,
};
use crate::gamejam::submission::{link_text, FilterView, GameFilter};
use crate::text::concat_text;

verus! {

/// The commands of the game-jam bot.
#[derive(Clone, Copy, PartialEq, Eq, Debug, Structural)]
pub enum GamejamCommand {
    /// A message that is only a link submits it, where that is allowed.
    DirectSubmit,
    Submit,
    Return,
    NextQueued,
    NextAuthor,
    CancelOwn,
    CancelAuthor,
    Queue,
    Current,
    SkipNext,
    SkipAll,
    Skip,
    UnskipLast,
    UnskipAuthor,
    Stop,
    Force,
    Close,
    Open,
    RaffleStart,
    RaffleFinish,
    RaffleCancel,
    Join,
    Luck,
    AuthorsAddLink,
    AuthorsAddOwn,
    AuthorsRemoveLink,
    AuthorsRemoveOwn,
}

/// How many arguments a command takes.
pub open spec fn arity(c: GamejamCommand) -> nat {
    match c {
        GamejamCommand::DirectSubmit | GamejamCommand::Submit | GamejamCommand::NextAuthor
        | GamejamCommand::CancelAuthor | GamejamCommand::UnskipAuthor | GamejamCommand::AuthorsAddOwn
        | GamejamCommand::AuthorsRemoveOwn => 1,
        GamejamCommand::AuthorsAddLink | GamejamCommand::AuthorsRemoveLink => 2,
        _ => 0,
    }
}

impl GamejamCommand {
    /// How many arguments the command takes.
    pub fn args_needed(self) -> (n: usize)
        ensures
            n == arity(self),
    {
        match self {
            GamejamCommand::DirectSubmit | GamejamCommand::Submit | GamejamCommand::NextAuthor
            | GamejamCommand::CancelAuthor | GamejamCommand::UnskipAuthor | GamejamCommand::AuthorsAddOwn
            | GamejamCommand::AuthorsRemoveOwn => 1,
            GamejamCommand::AuthorsAddLink | GamejamCommand::AuthorsRemoveLink => 2,
            _ => 0,
        }
    }
}

/// The reply to `!current`.
pub open spec fn current_reply(v: JamView) -> Seq<char> {
    match v.state {
        StateView::Playing { game } => "Current game is: "@ + link_text(game, false),
        _ => "Not playing any game at the moment"@,
    }
}

/// What running `cmd` for `sender` with `args` does; `winner` is the
/// outcome of the draw where the command finishes a raffle.
pub open spec fn perform_spec(
    v: JamView,
    c: GameJamConfig,
    cmd: GamejamCommand,
    sender: Seq<char>,
    args: Seq<Seq<char>>,
    winner: Option<int>,
) -> (JamView, Option<Seq<char>>) {
    match cmd {
        GamejamCommand::DirectSubmit => if c.allow_direct_link_submit && c.link_start is Some
            && check_link_spec(c, args[0]) {
            submit_spec(v, c, args[0], sender)
        } else {
            (v, None)
        },
        GamejamCommand::Submit => submit_spec(v, c, args[0], sender),
        GamejamCommand::Return => return_game_spec(v, c, sender),
        GamejamCommand::NextQueued => next_spec(v, c, None, true),
        GamejamCommand::NextAuthor => next_spec(v, c, Some(args[0]), false),
        GamejamCommand::CancelOwn => remove_response_spec(v, sender),
        GamejamCommand::CancelAuthor => remove_response_spec(v, args[0]),
        GamejamCommand::Queue => (v, queue_spec(v, c, sender)),
        GamejamCommand::Current => (v, Some(current_reply(v))),
        GamejamCommand::SkipNext => skip_spec(v, c, true),
        GamejamCommand::SkipAll => skip_all_spec(v),
        GamejamCommand::Skip => skip_spec(v, c, false),
        GamejamCommand::UnskipLast => unskip_spec(v, None),
        GamejamCommand::UnskipAuthor => unskip_spec(v, Some(args[0])),
        GamejamCommand::Stop => (set_current_spec(v, None).0, Some("Current game set to None"@)),
        GamejamCommand::Force => force_spec(v),
        GamejamCommand::Close => (saved(JamView { open: false, ..v }), Some("The queue is now closed"@)),
        GamejamCommand::Open => (saved(JamView { open: true, ..v }), Some("The queue is now open"@)),
        GamejamCommand::RaffleStart => raffle_start_spec(v),
        GamejamCommand::RaffleFinish => raffle_finish_with_spec(v, winner),
        GamejamCommand::RaffleCancel => raffle_cancel_spec(v),
        GamejamCommand::Join => raffle_join_spec(v, c, sender),
        GamejamCommand::Luck => (v, Some(luck_spec(v, c, sender))),
        GamejamCommand::AuthorsAddLink => authors_add_spec(v, sender, args[1], false, FilterView::Link(args[0])),
        GamejamCommand::AuthorsAddOwn => authors_add_spec(v, sender, args[0], true, FilterView::Author(sender)),
        GamejamCommand::AuthorsRemoveLink => authors_remove_spec(
            v,
            sender,
            args[1],
            false,
            FilterView::Link(args[0]),
        ),
        GamejamCommand::AuthorsRemoveOwn => authors_remove_spec(
            v,
            sender,
            args[0],
            true,
            FilterView::Author(sender),
        ),
    }
}

/// Some draw is always possible.
pub proof fn lemma_some_winner(joined: Seq<(Seq<char>, u32)>)
    ensures
        exists|w: Option<int>| possible_winner(joined, w),
{
    if exists|i: int| 0 <= i < joined.len() && joined[i].1 > 0 {
        let i = choose|i: int| 0 <= i < joined.len() && joined[i].1 > 0;
        assert(possible_winner(joined, Some(i)));
    } else {
        assert(possible_winner(joined, None));
    }
}

impl GamejamBot {
    /// The bot's command tree.
    pub fn commands() -> (r: BotCommands<GamejamCommand>)
        ensures
            r.commands@.len() == 18,
            word_runs(r.commands@[0], AuthorityLevel::Viewer, GamejamCommand::DirectSubmit),
            is_literal(r.commands@[1], "!submit"@, 1),
            word_runs(child(r.commands@[1], 0), AuthorityLevel::Viewer, GamejamCommand::Submit),
            literal_runs(r.commands@[2], "!return"@, AuthorityLevel::Viewer, GamejamCommand::Return),
            is_literal(r.commands@[3], "!next"@, 2),
            runs(child(r.commands@[3], 0), AuthorityLevel::Broadcaster, GamejamCommand::NextQueued),
            word_runs(child(r.commands@[3], 1), AuthorityLevel::Broadcaster, GamejamCommand::NextAuthor),
            is_literal(r.commands@[4], "!cancel"@, 2),
            runs(child(r.commands@[4], 0), AuthorityLevel::Viewer, GamejamCommand::CancelOwn),
            word_runs(child(r.commands@[4], 1), AuthorityLevel::Moderator, GamejamCommand::CancelAuthor),
            literal_runs(r.commands@[5], "!queue"@, AuthorityLevel::Viewer, GamejamCommand::Queue),
            literal_runs(r.commands@[6], "!list"@, AuthorityLevel::Viewer, GamejamCommand::Queue),
            literal_runs(r.commands@[7], "!current"@, AuthorityLevel::Viewer, GamejamCommand::Current),
            is_literal(r.commands@[8], "!skip"@, 3),
            literal_runs(child(r.commands@[8], 0), "next"@, AuthorityLevel::Broadcaster, GamejamCommand::SkipNext),
            literal_runs(child(r.commands@[8], 1), "all"@, AuthorityLevel::Broadcaster, GamejamCommand::SkipAll),
            runs(child(r.commands@[8], 2), AuthorityLevel::Broadcaster, GamejamCommand::Skip),
            is_literal(r.commands@[9], "!unskip"@, 2),
            runs(child(r.commands@[9], 0), AuthorityLevel::Broadcaster, GamejamCommand::UnskipLast),
            word_runs(child(r.commands@[9], 1), AuthorityLevel::Broadcaster, GamejamCommand::UnskipAuthor),
            literal_runs(r.commands@[10], "!stop"@, AuthorityLevel::Moderator, GamejamCommand::Stop),
            literal_runs(r.commands@[11], "!force"@, AuthorityLevel::Moderator, GamejamCommand::Force),
            literal_runs(r.commands@[12], "!close"@, AuthorityLevel::Moderator, GamejamCommand::Close),
            literal_runs(r.commands@[13], "!open"@, AuthorityLevel::Moderator, GamejamCommand::Open),
            is_literal(r.commands@[14], "!raffle"@, 3),
            runs(child(r.commands@[14], 0), AuthorityLevel::Broadcaster, GamejamCommand::RaffleStart),
            literal_runs(
                child(r.commands@[14], 1),
                "finish"@,
                AuthorityLevel::Broadcaster,
                GamejamCommand::RaffleFinish,
            ),
            literal_runs(
                child(r.commands@[14], 2),
                "cancel"@,
                AuthorityLevel::Broadcaster,
                GamejamCommand::RaffleCancel,
            ),
            literal_runs(r.commands@[15], "!join"@, AuthorityLevel::Viewer, GamejamCommand::Join),
            literal_runs(r.commands@[16], "!luck"@, AuthorityLevel::Viewer, GamejamCommand::Luck),
            is_literal(r.commands@[17], "!authors"@, 4),
            is_literal(child(r.commands@[17], 0), "add"@, 1),
            two_words_run(child(child(r.commands@[17], 0), 0), AuthorityLevel::Moderator, GamejamCommand::AuthorsAddLink),
            is_literal(child(r.commands@[17], 1), "add"@, 1),
            word_runs(child(child(r.commands@[17], 1), 0), AuthorityLevel::Viewer, GamejamCommand::AuthorsAddOwn),
            is_literal(child(r.commands@[17], 2), "remove"@, 1),
            two_words_run(
                child(child(r.commands@[17], 2), 0),
                AuthorityLevel::Moderator,
                GamejamCommand::AuthorsRemoveLink,
            ),
            is_literal(child(r.commands@[17], 3), "remove"@, 1),
            word_runs(child(child(r.commands@[17], 3), 0), AuthorityLevel::Viewer, GamejamCommand::AuthorsRemoveOwn),
    {
        let v = AuthorityLevel::Viewer;
        let m = AuthorityLevel::Moderator;
        let b = AuthorityLevel::Broadcaster;
        let commands = vec![
            word(fin(v, GamejamCommand::DirectSubmit)),
            lit("!submit", vec![word(fin(v, GamejamCommand::Submit))]),
            lit("!return", vec![fin(v, GamejamCommand::Return)]),
            lit("!next", vec![fin(b, GamejamCommand::NextQueued), word(fin(b, GamejamCommand::NextAuthor))]),
            lit("!cancel", vec![fin(v, GamejamCommand::CancelOwn), word(fin(m, GamejamCommand::CancelAuthor))]),
            lit("!queue", vec![fin(v, GamejamCommand::Queue)]),
            lit("!list", vec![fin(v, GamejamCommand::Queue)]),
            lit("!current", vec![fin(v, GamejamCommand::Current)]),
            lit(
                "!skip",
                vec![
                    lit("next", vec![fin(b, GamejamCommand::SkipNext)]),
                    lit("all", vec![fin(b, GamejamCommand::SkipAll)]),
                    fin(b, GamejamCommand::Skip),
                ],
            ),
            lit("!unskip", vec![fin(b, GamejamCommand::UnskipLast), word(fin(b, GamejamCommand::UnskipAuthor))]),
            lit("!stop", vec![fin(m, GamejamCommand::Stop)]),
            lit("!force", vec![fin(m, GamejamCommand::Force)]),
            lit("!close", vec![fin(m, GamejamCommand::Close)]),
            lit("!open", vec![fin(m, GamejamCommand::Open)]),
            lit(
                "!raffle",
                vec![
                    fin(b, GamejamCommand::RaffleStart),
                    lit("finish", vec![fin(b, GamejamCommand::RaffleFinish)]),
                    lit("cancel", vec![fin(b, GamejamCommand::RaffleCancel)]),
                ],
            ),
            lit("!join", vec![fin(v, GamejamCommand::Join)]),
            lit("!luck", vec![fin(v, GamejamCommand::Luck)]),
            lit(
                "!authors",
                vec![
                    lit("add", vec![word(word(fin(m, GamejamCommand::AuthorsAddLink)))]),
                    lit("add", vec![word(fin(v, GamejamCommand::AuthorsAddOwn))]),
                    lit("remove", vec![word(word(fin(m, GamejamCommand::AuthorsRemoveLink)))]),
                    lit("remove", vec![word(fin(v, GamejamCommand::AuthorsRemoveOwn))]),
                ],
            ),
        ];
        BotCommands { commands }
    }
}

impl GamejamBot {
    /// Runs `command` for `sender` with `args`, as the command tree found
    /// it in a message.
    pub fn perform(&mut self, command: GamejamCommand, sender: &str, args: &Vec<String>) -> (r: Option<String>)
        requires
            old(self).wf(),
            args@.len() >= arity(command),
            command == GamejamCommand::RaffleFinish ==> raffle_can_finish(old(self)@),
        ensures
            final(self).wf(),
            final(self).config == old(self).config,
            exists|w: Option<int>|
                possible_winner(raffle_joined(old(self)@), w) && (final(self)@, opt_text(r))
                    == #[trigger] perform_spec(
                    old(self)@,
                    old(self).config,
                    command,
                    sender@,
                    args.deep_view(),
                    w,
                ),
    {
        let ghost v = self@;
        proof {
            lemma_some_winner(raffle_joined(v));
        }
        let ghost w0 = choose|w: Option<int>| possible_winner(raffle_joined(v), w);
        let r = match command {
            GamejamCommand::DirectSubmit => {
                let link = args[0].clone();
                if self.config.allow_direct_link_submit && self.config.link_start.is_some()
                    && self.check_link(link.as_str()) {
                    self.submit(link, sender.to_owned())
                } else {
                    None
                }
            },
            GamejamCommand::Submit => self.submit(args[0].clone(), sender.to_owned()),
            GamejamCommand::Return => self.return_game(sender),
            GamejamCommand::NextQueued => self.next(None, true),
            GamejamCommand::NextAuthor => self.next(Some(args[0].as_str()), false),
            GamejamCommand::CancelOwn => self.remove_game_response(sender),
            GamejamCommand::CancelAuthor => self.remove_game_response(args[0].as_str()),
            GamejamCommand::Queue => self.queue(sender),
            GamejamCommand::Current => match &self.state.current_state {
                GameJamState::Playing { game } => Some(
                    concat_text("Current game is: ", game.to_string_link(false).as_str()),
                ),
                _ => Some("Not playing any game at the moment".to_owned()),
            },
            GamejamCommand::SkipNext => self.skip(true),
            GamejamCommand::SkipAll => self.skip_all(),
            GamejamCommand::Skip => self.skip(false),
            GamejamCommand::UnskipLast => self.unskip(None),
            GamejamCommand::UnskipAuthor => self.unskip(Some(args[0].as_str())),
            GamejamCommand::Stop => {
                self.set_current(None);
                Some("Current game set to None".to_owned())
            },
            GamejamCommand::Force => self.force(),
            GamejamCommand::Close => {
                self.state.is_queue_open = false;
                self.save_games();
                Some("The queue is now closed".to_owned())
            },
            GamejamCommand::Open => {
                self.state.is_queue_open = true;
                self.save_games();
                Some("The queue is now open".to_owned())
            },
            GamejamCommand::RaffleStart => self.raffle_start(),
            GamejamCommand::RaffleFinish => {
                let r = self.raffle_finish();
                proof {
                    let w = choose|w: Option<int>|
                        possible_winner(raffle_joined(v), w) && (self@, opt_text(r))
                            == #[trigger] raffle_finish_with_spec(v, w);
                    assert(perform_spec(v, self.config, command, sender@, args.deep_view(), w)
                        == raffle_finish_with_spec(v, w));
                }
                return r;
            },
            GamejamCommand::RaffleCancel => self.raffle_cancel(),
            GamejamCommand::Join => self.raffle_join(sender.to_owned()),
            GamejamCommand::Luck => self.luck(sender),
            GamejamCommand::AuthorsAddLink => self.authors_add(
                sender,
                args[1].clone(),
                false,
                &GameFilter::Link(args[0].clone()),
            ),
            GamejamCommand::AuthorsAddOwn => self.authors_add(
                sender,
                args[0].clone(),
                true,
                &GameFilter::Author(sender.to_owned()),
            ),
            GamejamCommand::AuthorsRemoveLink => self.authors_remove(
                sender,
                args[1].as_str(),
                false,
                &GameFilter::Link(args[0].clone()),
            ),
            GamejamCommand::AuthorsRemoveOwn => self.authors_remove(
                sender,
                args[0].as_str(),
                true,
                &GameFilter::Author(sender.to_owned()),
            ),
        };
        proof {
            assert((self@, opt_text(r)) == perform_spec(v, self.config, command, sender@, args.deep_view(), w0));
        }
        r
    }
}

} // verus!
