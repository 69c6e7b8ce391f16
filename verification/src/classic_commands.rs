//! The chat commands of the first game-jam bot: the command tree and what
//! each command does.

use vstd::prelude::*;
use crate::classic::{
    cancel_spec, current_spec, force_spec, link_ok, next_spec, queue_spec, raffle_can_finish,
    raffle_finish_with_spec, raffle_join_spec, raffle_start_spec, raffle_undo_spec, return_spec, saved,
    set_current_spec, skip_all_spec, skip_spec, submit_spec, unskip_spec, ClassicView, GameJamConfig, GameJamBot,
};
use crate::commands::{
    child, final_node as fin, is_literal, literal_node as lit, literal_runs, runs, word_node as word, word_runs,
    AuthorityLevel, BotCommands,
};
use crate::gamejam::bot::{opt_text, possible_winner};
use crate::gamejam::commands::lemma_some_winner;

verus! {

/// The commands of the first game-jam bot.
#[derive(Clone, Copy, PartialEq, Eq, Debug, Structural)]
pub enum ClassicCommand {
    /// A message that is only a link submits it, where that is allowed.
    DirectSubmit,
    Submit,
    Return,
    NextQueued,
    NextAuthor,
    CancelOwn,
    CancelAuthor,
    Queue,
    Current,
    SkipNext,
    SkipAll,
    Skip,
    Unskip,
    Stop,
    Clear,
    Force,
    Close,
    Open,
    RaffleStart,
    RaffleFinish,
    RaffleCancel,
    Join,
}

/// How many arguments a command takes.
pub open spec fn classic_arity(c: ClassicCommand) -> nat {
    match c {
        ClassicCommand::DirectSubmit | ClassicCommand::Submit | ClassicCommand::NextAuthor
        | ClassicCommand::CancelAuthor => 1,
        _ => 0,
    }
}

impl ClassicCommand {
    /// How many arguments the command takes.
    pub fn args_needed(self) -> (n: usize)
        ensures
            n == classic_arity(self),
    {
        match self {
            ClassicCommand::DirectSubmit | ClassicCommand::Submit | ClassicCommand::NextAuthor
            | ClassicCommand::CancelAuthor => 1,
            _ => 0,
        }
    }
}

/// A reply that is always given.
pub open spec fn answered(o: (ClassicView, Seq<char>)) -> (ClassicView, Option<Seq<char>>) {
    (o.0, Some(o.1))
}

/// The entries of the running raffle (none where no raffle runs).
pub open spec fn raffle_entries(v: ClassicView) -> Seq<(Seq<char>, u32)> {
    match v.raffle {
        Some(j) => j,
        None => Seq::empty(),
    }
}

/// What running `cmd` for `sender` with `args` does; `winner` is the
/// outcome of the draw where the command finishes a raffle.
pub open spec fn classic_perform_spec(
    v: ClassicView,
    c: GameJamConfig,
    cmd: ClassicCommand,
    sender: Seq<char>,
    args: Seq<Seq<char>>,
    winner: Option<int>,
) -> (ClassicView, Option<Seq<char>>) {
    match cmd {
        ClassicCommand::DirectSubmit => if c.allow_direct_link_submit && c.link_start is Some && link_ok(
            c,
            args[0],
        ) {
            answered(submit_spec(v, c, args[0], sender))
        } else {
            (v, None)
        },
        ClassicCommand::Submit => answered(submit_spec(v, c, args[0], sender)),
        ClassicCommand::Return => return_spec(v, sender),
        ClassicCommand::NextQueued => next_spec(v, c, None, true),
        ClassicCommand::NextAuthor => next_spec(v, c, Some(args[0]), false),
        ClassicCommand::CancelOwn => answered(cancel_spec(v, sender)),
        ClassicCommand::CancelAuthor => answered(cancel_spec(v, args[0])),
        ClassicCommand::Queue => (v, queue_spec(v, c, sender)),
        ClassicCommand::Current => (v, Some(current_spec(v))),
        ClassicCommand::SkipNext => skip_spec(v, c, true),
        ClassicCommand::SkipAll => answered(skip_all_spec(v)),
        ClassicCommand::Skip => skip_spec(v, c, false),
        ClassicCommand::Unskip => answered(unskip_spec(v)),
        ClassicCommand::Stop => (
            set_current_spec(ClassicView { waiting: false, ..v }, None).0,
            Some("Current game set to None"@),
        ),
        ClassicCommand::Clear => (
            saved(ClassicView { games: Seq::empty(), ..v }),
            Some("The queue has been cleared"@),
        ),
        ClassicCommand::Force => answered(force_spec(v)),
        ClassicCommand::Close => (saved(ClassicView { open: false, ..v }), Some("The queue is now closed"@)),
        ClassicCommand::Open => (saved(ClassicView { open: true, ..v }), Some("The queue is now open"@)),
        ClassicCommand::RaffleStart => answered(raffle_start_spec(v)),
        ClassicCommand::RaffleFinish => answered(raffle_finish_with_spec(v, winner)),
        ClassicCommand::RaffleCancel => answered(raffle_undo_spec(v)),
        ClassicCommand::Join => (raffle_join_spec(v, c, sender), None),
    }
}

impl GameJamBot {
    /// The bot's command tree.
    pub fn commands() -> (r: BotCommands<ClassicCommand>)
        ensures
            r.commands@.len() == 16,
            word_runs(r.commands@[0], AuthorityLevel::Viewer, ClassicCommand::DirectSubmit),
            is_literal(r.commands@[1], "!submit"@, 1),
            word_runs(child(r.commands@[1], 0), AuthorityLevel::Viewer, ClassicCommand::Submit),
            literal_runs(r.commands@[2], "!return"@, AuthorityLevel::Viewer, ClassicCommand::Return),
            is_literal(r.commands@[3], "!next"@, 2),
            runs(child(r.commands@[3], 0), AuthorityLevel::Broadcaster, ClassicCommand::NextQueued),
            word_runs(child(r.commands@[3], 1), AuthorityLevel::Broadcaster, ClassicCommand::NextAuthor),
            is_literal(r.commands@[4], "!cancel"@, 2),
            runs(child(r.commands@[4], 0), AuthorityLevel::Viewer, ClassicCommand::CancelOwn),
            word_runs(child(r.commands@[4], 1), AuthorityLevel::Moderator, ClassicCommand::CancelAuthor),
            literal_runs(r.commands@[5], "!queue"@, AuthorityLevel::Viewer, ClassicCommand::Queue),
            literal_runs(r.commands@[6], "!current"@, AuthorityLevel::Viewer, ClassicCommand::Current),
            is_literal(r.commands@[7], "!skip"@, 3),
            literal_runs(child(r.commands@[7], 0), "next"@, AuthorityLevel::Broadcaster, ClassicCommand::SkipNext),
            literal_runs(child(r.commands@[7], 1), "all"@, AuthorityLevel::Broadcaster, ClassicCommand::SkipAll),
            runs(child(r.commands@[7], 2), AuthorityLevel::Broadcaster, ClassicCommand::Skip),
            literal_runs(r.commands@[8], "!unskip"@, AuthorityLevel::Broadcaster, ClassicCommand::Unskip),
            literal_runs(r.commands@[9], "!stop"@, AuthorityLevel::Moderator, ClassicCommand::Stop),
            literal_runs(r.commands@[10], "!clear"@, AuthorityLevel::Moderator, ClassicCommand::Clear),
            literal_runs(r.commands@[11], "!force"@, AuthorityLevel::Moderator, ClassicCommand::Force),
            literal_runs(r.commands@[12], "!close"@, AuthorityLevel::Moderator, ClassicCommand::Close),
            literal_runs(r.commands@[13], "!open"@, AuthorityLevel::Moderator, ClassicCommand::Open),
            is_literal(r.commands@[14], "!raffle"@, 3),
            runs(child(r.commands@[14], 0), AuthorityLevel::Broadcaster, ClassicCommand::RaffleStart),
            literal_runs(
                child(r.commands@[14], 1),
                "finish"@,
                AuthorityLevel::Broadcaster,
                ClassicCommand::RaffleFinish,
            ),
            literal_runs(child(r.commands@[14], 2), "cancel"@, AuthorityLevel::Broadcaster, ClassicCommand::RaffleCancel),
            literal_runs(r.commands@[15], "!join"@, AuthorityLevel::Viewer, ClassicCommand::Join),
    {
        let v = AuthorityLevel::Viewer;
        let m = AuthorityLevel::Moderator;
        let b = AuthorityLevel::Broadcaster;
        let commands = vec![
            word(fin(v, ClassicCommand::DirectSubmit)),
            lit("!submit", vec![word(fin(v, ClassicCommand::Submit))]),
            lit("!return", vec![fin(v, ClassicCommand::Return)]),
            lit("!next", vec![fin(b, ClassicCommand::NextQueued), word(fin(b, ClassicCommand::NextAuthor))]),
            lit("!cancel", vec![fin(v, ClassicCommand::CancelOwn), word(fin(m, ClassicCommand::CancelAuthor))]),
            lit("!queue", vec![fin(v, ClassicCommand::Queue)]),
            lit("!current", vec![fin(v, ClassicCommand::Current)]),
            lit(
                "!skip",
                vec![
                    lit("next", vec![fin(b, ClassicCommand::SkipNext)]),
                    lit("all", vec![fin(b, ClassicCommand::SkipAll)]),
                    fin(b, ClassicCommand::Skip),
                ],
            ),
            lit("!unskip", vec![fin(b, ClassicCommand::Unskip)]),
            lit("!stop", vec![fin(m, ClassicCommand::Stop)]),
            lit("!clear", vec![fin(m, ClassicCommand::Clear)]),
            lit("!force", vec![fin(m, ClassicCommand::Force)]),
            lit("!close", vec![fin(m, ClassicCommand::Close)]),
            lit("!open", vec![fin(m, ClassicCommand::Open)]),
            lit(
                "!raffle",
                vec![
                    fin(b, ClassicCommand::RaffleStart),
                    lit("finish", vec![fin(b, ClassicCommand::RaffleFinish)]),
                    lit("cancel", vec![fin(b, ClassicCommand::RaffleCancel)]),
                ],
            ),
            lit("!join", vec![fin(v, ClassicCommand::Join)]),
        ];
        BotCommands { commands }
    }

    /// Runs `command` for `sender` with `args`, as the command tree found
    /// it in a message.
    pub fn perform(&mut self, command: ClassicCommand, sender: &str, args: &Vec<String>) -> (r: Option<String>)
        requires
            old(self).wf(),
            args@.len() >= classic_arity(command),
            command == ClassicCommand::RaffleFinish ==> raffle_can_finish(old(self)@),
            command == ClassicCommand::Force ==> (old(self)@.waiting ==> old(self)@.current is Some),
        ensures
            final(self).wf(),
            final(self).config == old(self).config,
            exists|w: Option<int>|
                possible_winner(raffle_entries(old(self)@), w) && (final(self)@, opt_text(r))
                    == #[trigger] classic_perform_spec(
                    old(self)@,
                    old(self).config,
                    command,
                    sender@,
                    args.deep_view(),
                    w,
                ),
    {
        let ghost v = self@;
        proof {
            lemma_some_winner(raffle_entries(v));
        }
        let ghost w0 = choose|w: Option<int>| possible_winner(raffle_entries(v), w);
        let r = match command {
            ClassicCommand::DirectSubmit => {
                let link = args[0].clone();
                if self.config.allow_direct_link_submit && self.config.link_start.is_some() && self.check_link(
                    link.as_str(),
                ) {
                    self.submit(link, sender.to_owned())
                } else {
                    None
                }
            },
            ClassicCommand::Submit => self.submit(args[0].clone(), sender.to_owned()),
            ClassicCommand::Return => self.return_game(sender),
            ClassicCommand::NextQueued => self.next(None, true),
            ClassicCommand::NextAuthor => self.next(Some(args[0].as_str()), false),
            ClassicCommand::CancelOwn => self.cancel(sender),
            ClassicCommand::CancelAuthor => self.cancel(args[0].as_str()),
            ClassicCommand::Queue => self.queue(sender),
            ClassicCommand::Current => self.current(),
            ClassicCommand::SkipNext => self.skip(true),
            ClassicCommand::SkipAll => self.skip_all(),
            ClassicCommand::Skip => self.skip(false),
            ClassicCommand::Unskip => self.unskip(),
            ClassicCommand::Stop => self.stop(),
            ClassicCommand::Clear => self.clear(),
            ClassicCommand::Force => self.force(),
            ClassicCommand::Close => self.set_open(false),
            ClassicCommand::Open => self.set_open(true),
            ClassicCommand::RaffleStart => self.raffle_start(),
            ClassicCommand::RaffleFinish => {
                let r = self.raffle_finish();
                proof {
                    let w = choose|w: Option<int>|
                        possible_winner(raffle_entries(v), w) && crate::classic::finish_reply(
                            self@,
                            r,
                            #[trigger] raffle_finish_with_spec(v, w),
                        );
                    assert(classic_perform_spec(v, self.config, command, sender@, args.deep_view(), w)
                        == answered(raffle_finish_with_spec(v, w)));
                }
                return r;
            },
            ClassicCommand::RaffleCancel => self.raffle_undo(),
            ClassicCommand::Join => self.raffle_join(sender.to_owned()),
        };
        proof {
            assert((self@, opt_text(r)) == classic_perform_spec(v, self.config, command, sender@, args.deep_view(), w0));
        }
        r
    }
}

} // verus!
