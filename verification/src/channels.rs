//! The first main bot: it keeps which of the available bots are active and
//! answers the commands that start, stop and reset them; backups are run by
//! the caller.

use vstd::prelude::*;
use crate::commands::{
    child, final_node, is_literal, literal_node, literal_runs, runs, word_node, word_runs, AuthorityLevel,
    BotCommands, CommandNode,
};
use crate::registry::{actions_view, lemma_add_filtered, main_wf, position_of, ActionView, BotAction, MainView};
use crate::text::concat_text;

verus! {

/// The commands of the first main bot.
#[derive(Clone, Copy, PartialEq, Eq, Debug, Structural)]
pub enum ChannelsCommand {
    Shutdown,
    /// Backups copy directories; the caller runs them.
    BackupCreate,
    BackupCreateDefault,
    BackupLoad,
    BackupLoadDefault,
    /// The number is the bot's place among the available ones.
    Enable(usize),
    Disable(usize),
    Reset(usize),
}

/// Whether a command makes or loads a backup.
pub open spec fn is_channels_backup(c: ChannelsCommand) -> bool {
    c == ChannelsCommand::BackupCreate || c == ChannelsCommand::BackupCreateDefault || c
        == ChannelsCommand::BackupLoad || c == ChannelsCommand::BackupLoadDefault
}

/// The place of the bot that a command names, if it names one.
pub open spec fn named_bot(c: ChannelsCommand) -> Option<usize> {
    match c {
        ChannelsCommand::Enable(i) | ChannelsCommand::Disable(i) | ChannelsCommand::Reset(i) => Some(i),
        _ => None,
    }
}

/// The first main bot. The model is that of the main bot, the available
/// bots standing for the known ones.
pub struct ChannelsBot {
    /// The names of the bots that can be built.
    pub available: Vec<String>,
    /// The names of the running bots.
    pub active: Vec<String>,
    pub queue_shutdown: bool,
    /// The set of running bots was saved again.
    pub active_changed: bool,
    pub commands: BotCommands<ChannelsCommand>,
}

impl View for ChannelsBot {
    type V = MainView;

    open spec fn view(&self) -> MainView {
        MainView {
            known: self.available.deep_view(),
            active: self.active.deep_view(),
            shutdown: self.queue_shutdown,
            changed: self.active_changed,
        }
    }
}

/// Starting `name`: a running bot stays, an available one starts, another
/// name is not answered; the running bots are saved in every case.
pub open spec fn spawn_spec(v: MainView, name: Seq<char>) -> (MainView, Option<Seq<char>>, Seq<ActionView>) {
    if v.active.contains(name) {
        (MainView { changed: true, ..v }, Some(name + " is already active"@), Seq::empty())
    } else if v.known.contains(name) {
        (
            MainView { active: v.active.push(name), changed: true, ..v },
            Some(name + " is now active"@),
            seq![ActionView::Start(name)],
        )
    } else {
        (MainView { changed: true, ..v }, None, Seq::empty())
    }
}

/// Stopping `name`; the running bots are saved in every case.
pub open spec fn despawn_spec(v: MainView, name: Seq<char>) -> (MainView, Option<Seq<char>>, Seq<ActionView>) {
    if v.active.contains(name) {
        (
            MainView { active: v.active.remove(v.active.index_of(name)), changed: true, ..v },
            Some(name + " is no longer active"@),
            seq![ActionView::Stop(name)],
        )
    } else {
        (MainView { changed: true, ..v }, None, Seq::empty())
    }
}

/// Stopping `name`, then starting it.
pub open spec fn reset_bot_spec(v: MainView, name: Seq<char>) -> (MainView, Option<Seq<char>>, Seq<ActionView>) {
    let (v1, _, a1) = despawn_spec(v, name);
    let (v2, r, a2) = spawn_spec(v1, name);
    (
        v2,
        if r is Some {
            Some(name + " is reset"@)
        } else {
            None
        },
        a1 + a2,
    )
}

/// Each of `names` stopped and started again, in turn.
pub open spec fn restart_all(names: Seq<Seq<char>>) -> Seq<ActionView>
    decreases names.len(),
{
    if names.len() == 0 {
        Seq::empty()
    } else {
        restart_all(names.drop_last()) + seq![ActionView::Stop(names.last()), ActionView::Start(names.last())]
    }
}

/// Resetting every running bot: each is stopped and started again and the
/// same bots run.
pub open spec fn reset_every_spec(v: MainView) -> (MainView, Seq<char>, Seq<ActionView>) {
    (MainView { changed: v.changed || v.active.len() > 0, ..v }, "All active bots reset"@, restart_all(v.active))
}

/// What a command does; a named bot is given by its place among the
/// available ones.
pub open spec fn channels_perform_spec(v: MainView, cmd: ChannelsCommand) -> (
    MainView,
    Option<Seq<char>>,
    Seq<ActionView>,
) {
    match cmd {
        ChannelsCommand::Enable(i) => spawn_spec(v, v.known[i as int]),
        ChannelsCommand::Disable(i) => despawn_spec(v, v.known[i as int]),
        ChannelsCommand::Reset(i) => reset_bot_spec(v, v.known[i as int]),
        _ => (MainView { shutdown: true, ..v }, Some("Shutting down..."@), Seq::empty()),
    }
}

/// The command of kind `kind` for the bot at place `i`.
pub open spec fn with_bot(kind: ChannelsCommand, i: usize) -> ChannelsCommand {
    match kind {
        ChannelsCommand::Enable(_) => ChannelsCommand::Enable(i),
        ChannelsCommand::Disable(_) => ChannelsCommand::Disable(i),
        ChannelsCommand::Reset(_) => ChannelsCommand::Reset(i),
        other => other,
    }
}

/// One node per available bot, each taking the bot's name and running the
/// command of kind `kind` for it.
fn bot_choices(available: &Vec<String>, kind: ChannelsCommand) -> (r: Vec<CommandNode<ChannelsCommand>>)
    ensures
        r@.len() == available@.len(),
        forall|i: int|
            0 <= i < available@.len() ==> literal_runs(
                #[trigger] r@[i],
                available@[i]@,
                AuthorityLevel::Moderator,
                with_bot(kind, i as usize),
            ),
{
    let mut r: Vec<CommandNode<ChannelsCommand>> = Vec::new();
    let mut i: usize = 0;
    while i < available.len()
        invariant
            i <= available@.len(),
            r@.len() == i,
            forall|k: int|
                0 <= k < i ==> literal_runs(
                    #[trigger] r@[k],
                    available@[k]@,
                    AuthorityLevel::Moderator,
                    with_bot(kind, k as usize),
                ),
        decreases available@.len() - i,
    {
        let command = match kind {
            ChannelsCommand::Enable(_) => ChannelsCommand::Enable(i),
            ChannelsCommand::Disable(_) => ChannelsCommand::Disable(i),
            ChannelsCommand::Reset(_) => ChannelsCommand::Reset(i),
            other => other,
        };
        let children = vec![final_node(AuthorityLevel::Moderator, command)];
        let node = literal_node(available[i].as_str(), children);
        r.push(node);
        i = i + 1;
    }
    r
}

/// Resetting an active bot leaves it running and answers that it is reset.
pub proof fn law_channels_reset_keeps_running(v: MainView, name: Seq<char>)
    requires
        main_wf(v),
        v.known.contains(name),
    ensures
        reset_bot_spec(v, name).0.active.contains(name),
        reset_bot_spec(v, name).1 == Some(name + " is reset"@),
{
    let v1 = despawn_spec(v, name).0;
    if v.active.contains(name) {
        v.active.index_of_first_ensures(name);
        let i = v.active.index_of(name);
        assert(!v1.active.contains(name)) by {
            if v1.active.contains(name) {
                let k = choose|k: int| 0 <= k < v1.active.len() && #[trigger] v1.active[k] == name;
                if k < i {
                    assert(v.active[k] == name);
                } else {
                    assert(v.active[k + 1] == name);
                }
            }
        }
    }
    assert(spawn_spec(v1, name).0.active[v1.active.len() as int] == name);
}

/// Starting an available bot that is not running and stopping it again
/// leaves the running bots as they were.
pub proof fn law_channels_spawn_then_despawn(v: MainView, name: Seq<char>)
    requires
        main_wf(v),
        v.known.contains(name),
        !v.active.contains(name),
    ensures
        despawn_spec(spawn_spec(v, name).0, name).0.active == v.active,
        spawn_spec(v, name).0.active.contains(name),
{
    let a = v.active.push(name);
    assert(a[v.active.len() as int] == name);
    a.index_of_first_ensures(name);
    let i = a.index_of(name);
    if i < v.active.len() {
        assert(v.active[i] == name);
    }
    assert(a.remove(v.active.len() as int) =~= v.active);
}

impl ChannelsBot {
    /// The bot's name.
    pub fn name() -> (r: &'static str)
        ensures
            r@ == "ChannelsBot"@,
    {
        "ChannelsBot"
    }

    /// A bot that can build the bots `available`, with the available ones
    /// among `active` started, each once; the running bots are saved where
    /// `active` names any.
    pub fn new(available: Vec<String>, active: &Vec<String>) -> (r: (ChannelsBot, Vec<BotAction>))
        ensures
            main_wf(r.0@),
            r.0@.known == available.deep_view(),
            !r.0@.shutdown,
            r.0@.changed == (active@.len() > 0),
            forall|n: Seq<char>|
                r.0@.active.contains(n) <==> (active.deep_view().contains(n) && available.deep_view().contains(n)),
            actions_view(r.1@) == r.0@.active.map_values(|n: Seq<char>| ActionView::Start(n)),
    {
        let ghost kv = available.deep_view();
        let commands = ChannelsBot::commands(&available);
        let mut bot = ChannelsBot {
            available,
            active: Vec::new(),
            queue_shutdown: false,
            active_changed: false,
            commands,
        };
        let mut actions: Vec<BotAction> = Vec::new();
        let mut i: usize = 0;
        proof {
            assert(bot@.active =~= Seq::<Seq<char>>::empty());
            assert(actions_view(actions@) =~= bot@.active.map_values(|n: Seq<char>| ActionView::Start(n)));
            assert(active.deep_view().take(0) =~= Seq::<Seq<char>>::empty());
        }
        while i < active.len()
            invariant
                i <= active@.len(),
                main_wf(bot@),
                bot@.known == kv,
                !bot@.shutdown,
                bot@.changed == (i > 0),
                forall|n: Seq<char>|
                    bot@.active.contains(n) <==> (active.deep_view().take(i as int).contains(n) && kv.contains(n)),
                actions_view(actions@) == bot@.active.map_values(|n: Seq<char>| ActionView::Start(n)),
            decreases active@.len() - i,
        {
            let name = active[i].as_str();
            let ghost a = active.deep_view();
            let ghost before = bot@.active;
            proof {
                assert(a.take(i + 1) =~= a.take(i as int).push(a[i as int]));
                assert(a[i as int] == name@);
            }
            let in_active = position_of(&bot.active, name).is_some();
            let in_known = position_of(&bot.available, name).is_some();
            if !in_active && in_known {
                bot.active.push(name.to_owned());
                let ghost acts = actions_view(actions@);
                actions.push(BotAction::Start(name.to_owned()));
                proof {
                    assert(bot@.active =~= before.push(name@));
                    assert(actions_view(actions@) =~= acts.push(ActionView::Start(name@)));
                    assert(bot@.active.map_values(|n: Seq<char>| ActionView::Start(n)) =~= before.map_values(
                        |n: Seq<char>| ActionView::Start(n),
                    ).push(ActionView::Start(name@)));
                    lemma_add_filtered(before, a.take(i as int), kv, name@, true);
                    assert forall|k: int| 0 <= k < bot@.active.len() implies bot@.known.contains(
                        #[trigger] bot@.active[k],
                    ) by {
                        if k < before.len() {
                            assert(bot@.active[k] == before[k]);
                        }
                    }
                }
            } else {
                proof {
                    lemma_add_filtered(before, a.take(i as int), kv, name@, false);
                }
            }
            bot.active_changed = true;
            i = i + 1;
        }
        proof {
            assert(active.deep_view().take(active@.len() as int) =~= active.deep_view());
        }
        (bot, actions)
    }

    /// Starts an available bot.
    pub fn spawn_bot(&mut self, bot_name: &str) -> (r: (Option<String>, Vec<BotAction>))
        requires
            main_wf(old(self)@),
        ensures
            main_wf(final(self)@),
            final(self).commands == old(self).commands,
            (final(self)@, crate::gamejam::bot::opt_text(r.0), actions_view(r.1@)) == spawn_spec(
                old(self)@,
                bot_name@,
            ),
    {
        let mut actions: Vec<BotAction> = Vec::new();
        self.active_changed = true;
        if position_of(&self.active, bot_name).is_some() {
            proof {
                assert(actions_view(actions@) =~= Seq::<ActionView>::empty());
            }
            return (Some(concat_text(bot_name, " is already active")), actions);
        }
        match position_of(&self.available, bot_name) {
            Some(_) => {
                let ghost before = self@.active;
                self.active.push(bot_name.to_owned());
                actions.push(BotAction::Start(bot_name.to_owned()));
                proof {
                    assert(self@.active =~= before.push(bot_name@));
                    assert(actions_view(actions@) =~= seq![ActionView::Start(bot_name@)]);
                    assert forall|k: int| 0 <= k < self@.active.len() implies self@.known.contains(
                        #[trigger] self@.active[k],
                    ) by {
                        if k < before.len() {
                            assert(self@.active[k] == before[k]);
                        }
                    }
                }
                (Some(concat_text(bot_name, " is now active")), actions)
            },
            None => {
                proof {
                    assert(actions_view(actions@) =~= Seq::<ActionView>::empty());
                }
                (None, actions)
            },
        }
    }

    /// Stops a running bot.
    pub fn disable_bot(&mut self, bot_name: &str) -> (r: (Option<String>, Vec<BotAction>))
        requires
            main_wf(old(self)@),
        ensures
            main_wf(final(self)@),
            final(self).commands == old(self).commands,
            (final(self)@, crate::gamejam::bot::opt_text(r.0), actions_view(r.1@)) == despawn_spec(
                old(self)@,
                bot_name@,
            ),
    {
        let mut actions: Vec<BotAction> = Vec::new();
        self.active_changed = true;
        match position_of(&self.active, bot_name) {
            Some(i) => {
                let ghost before = self@.active;
                proof {
                    before.index_of_first_ensures(bot_name@);
                    assert(before.index_of(bot_name@) == i as int) by {
                        let k = before.index_of(bot_name@);
                        if k != i as int {
                            assert(before.no_duplicates());
                        }
                    }
                }
                self.active.remove(i);
                actions.push(BotAction::Stop(bot_name.to_owned()));
                proof {
                    assert(self@.active =~= before.remove(i as int));
                    assert(actions_view(actions@) =~= seq![ActionView::Stop(bot_name@)]);
                    assert forall|k: int| 0 <= k < self@.active.len() implies self@.known.contains(
                        #[trigger] self@.active[k],
                    ) by {
                        if k < i {
                            assert(self@.active[k] == before[k]);
                        } else {
                            assert(self@.active[k] == before[k + 1]);
                        }
                    }
                    assert(self@.active.no_duplicates()) by {
                        assert forall|a: int, b: int|
                            0 <= a < self@.active.len() && 0 <= b < self@.active.len() && a != b implies self@.active[a]
                            != self@.active[b] by {
                            let a1 = if a < i { a } else { a + 1 };
                            let b1 = if b < i { b } else { b + 1 };
                            assert(self@.active[a] == before[a1]);
                            assert(self@.active[b] == before[b1]);
                        }
                    }
                }
                (Some(concat_text(bot_name, " is no longer active")), actions)
            },
            None => {
                proof {
                    assert(actions_view(actions@) =~= Seq::<ActionView>::empty());
                }
                (None, actions)
            },
        }
    }

    /// Stops the bot if it runs, then starts it.
    pub fn reset_bot(&mut self, bot_name: &str) -> (r: (Option<String>, Vec<BotAction>))
        requires
            main_wf(old(self)@),
        ensures
            main_wf(final(self)@),
            final(self).commands == old(self).commands,
            (final(self)@, crate::gamejam::bot::opt_text(r.0), actions_view(r.1@)) == reset_bot_spec(
                old(self)@,
                bot_name@,
            ),
    {
        let (_, mut actions) = self.disable_bot(bot_name);
        let (reply, mut more) = self.spawn_bot(bot_name);
        let ghost a1 = actions_view(actions@);
        let ghost a2 = actions_view(more@);
        actions.append(&mut more);
        proof {
            assert(actions_view(actions@) =~= a1 + a2);
        }
        match reply {
            Some(_) => (Some(concat_text(bot_name, " is reset")), actions),
            None => (None, actions),
        }
    }

    /// Stops every running bot and starts it again.
    pub fn reset_all(&mut self) -> (r: (Option<String>, Vec<BotAction>))
        requires
            main_wf(old(self)@),
        ensures
            main_wf(final(self)@),
            final(self).commands == old(self).commands,
            r.0 is Some,
            (final(self)@, r.0->0@, actions_view(r.1@)) == reset_every_spec(old(self)@),
    {
        let ghost l = self@.active;
        let mut actions: Vec<BotAction> = Vec::new();
        let mut i: usize = 0;
        proof {
            assert(actions_view(actions@) =~= restart_all(l.take(0)));
        }
        while i < self.active.len()
            invariant
                i <= self.active@.len(),
                l == self@.active,
                actions_view(actions@) == restart_all(l.take(i as int)),
            decreases self.active@.len() - i,
        {
            let ghost before = actions_view(actions@);
            actions.push(BotAction::Stop(self.active[i].clone()));
            actions.push(BotAction::Start(self.active[i].clone()));
            proof {
                assert(l.take(i + 1).drop_last() =~= l.take(i as int));
                assert(actions_view(actions@) =~= before + seq![
                    ActionView::Stop(l[i as int]),
                    ActionView::Start(l[i as int]),
                ]);
            }
            i = i + 1;
        }
        proof {
            assert(l.take(l.len() as int) =~= l);
        }
        if self.active.len() > 0 {
            self.active_changed = true;
        }
        (Some("All active bots reset".to_owned()), actions)
    }

    /// The names of the running bots.
    pub fn active_bots(&self) -> (r: Vec<String>)
        ensures
            r.deep_view() == self@.active,
    {
        let r = self.active.clone();
        proof {
            assert(r.deep_view() =~= self@.active);
        }
        r
    }

    /// Runs `command`, as the command tree found it in a message; backups
    /// are run by the caller.
    pub fn perform(&mut self, command: ChannelsCommand) -> (r: (Option<String>, Vec<BotAction>))
        requires
            main_wf(old(self)@),
            !is_channels_backup(command),
            named_bot(command) matches Some(i) ==> i < old(self).available@.len(),
        ensures
            main_wf(final(self)@),
            final(self).commands == old(self).commands,
            (final(self)@, crate::gamejam::bot::opt_text(r.0), actions_view(r.1@)) == channels_perform_spec(
                old(self)@,
                command,
            ),
    {
        match command {
            ChannelsCommand::Enable(i) => {
                let name = self.available[i].clone();
                self.spawn_bot(name.as_str())
            },
            ChannelsCommand::Disable(i) => {
                let name = self.available[i].clone();
                self.disable_bot(name.as_str())
            },
            ChannelsCommand::Reset(i) => {
                let name = self.available[i].clone();
                self.reset_bot(name.as_str())
            },
            _ => {
                self.queue_shutdown = true;
                let actions: Vec<BotAction> = Vec::new();
                proof {
                    assert(actions_view(actions@) =~= Seq::<ActionView>::empty());
                }
                (Some("Shutting down...".to_owned()), actions)
            },
        }
    }

    /// The bot's command tree; `!enable`, `!disable` and `!reset` take the
    /// name of one of the bots `available`.
    pub fn commands(available: &Vec<String>) -> (r: BotCommands<ChannelsCommand>)
        ensures
            r.commands@.len() == 5,
            literal_runs(r.commands@[0], "!shutdown"@, AuthorityLevel::Broadcaster, ChannelsCommand::Shutdown),
            is_literal(r.commands@[1], "!backup"@, 2),
            is_literal(child(r.commands@[1], 0), "create"@, 2),
            word_runs(child(child(r.commands@[1], 0), 0), AuthorityLevel::Broadcaster, ChannelsCommand::BackupCreate),
            runs(child(child(r.commands@[1], 0), 1), AuthorityLevel::Broadcaster, ChannelsCommand::BackupCreateDefault),
            is_literal(child(r.commands@[1], 1), "load"@, 2),
            word_runs(child(child(r.commands@[1], 1), 0), AuthorityLevel::Broadcaster, ChannelsCommand::BackupLoad),
            runs(child(child(r.commands@[1], 1), 1), AuthorityLevel::Broadcaster, ChannelsCommand::BackupLoadDefault),
            is_literal(r.commands@[2], "!enable"@, available@.len()),
            is_literal(r.commands@[3], "!disable"@, available@.len()),
            is_literal(r.commands@[4], "!reset"@, available@.len()),
            forall|i: int|
                0 <= i < available@.len() ==> {
                    &&& literal_runs(
                        #[trigger] child(r.commands@[2], i),
                        available@[i]@,
                        AuthorityLevel::Moderator,
                        ChannelsCommand::Enable(i as usize),
                    )
                    &&& literal_runs(
                        child(r.commands@[3], i),
                        available@[i]@,
                        AuthorityLevel::Moderator,
                        ChannelsCommand::Disable(i as usize),
                    )
                    &&& literal_runs(
                        child(r.commands@[4], i),
                        available@[i]@,
                        AuthorityLevel::Moderator,
                        ChannelsCommand::Reset(i as usize),
                    )
                },
    {
        let b = AuthorityLevel::Broadcaster;
        let commands = vec![
            literal_node("!shutdown", vec![final_node(b, ChannelsCommand::Shutdown)]),
            literal_node(
                "!backup",
                vec![
                    literal_node(
                        "create",
                        vec![
                            word_node(final_node(b, ChannelsCommand::BackupCreate)),
                            final_node(b, ChannelsCommand::BackupCreateDefault),
                        ],
                    ),
                    literal_node(
                        "load",
                        vec![
                            word_node(final_node(b, ChannelsCommand::BackupLoad)),
                            final_node(b, ChannelsCommand::BackupLoadDefault),
                        ],
                    ),
                ],
            ),
            literal_node("!enable", bot_choices(available, ChannelsCommand::Enable(0))),
            literal_node("!disable", bot_choices(available, ChannelsCommand::Disable(0))),
            literal_node("!reset", bot_choices(available, ChannelsCommand::Reset(0))),
        ];
        BotCommands { commands }
    }
}

} // verus!
