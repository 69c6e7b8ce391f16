//! The main bot: it keeps which of the known bots are active and answers
//! the commands that start, stop and reset them.

use vstd::prelude::*;
use crate::commands::{
    child, final_node, is_literal, literal_node, literal_runs, word_node, word_runs, AuthorityLevel, BotCommands,
};
use crate::custom::CustomSerialized;
use crate::quote::QuoteSerialized;
use crate::text::{concat_text, reply_is, str_eq};
use crate::vote::VoteSerialized;
use vstd::string::StringExecFns;

verus! {

/// What the caller has to do to the running bots.
pub enum BotAction {
    /// Build the named bot and run it.
    Start(String),
    /// Drop the named bot.
    Stop(String),
}

/// The model of an action.
pub enum ActionView {
    Start(Seq<char>),
    Stop(Seq<char>),
}

impl View for BotAction {
    type V = ActionView;

    open spec fn view(&self) -> ActionView {
        match self {
            BotAction::Start(n) => ActionView::Start(n@),
            BotAction::Stop(n) => ActionView::Stop(n@),
        }
    }
}

/// The models of a list of actions.
pub open spec fn actions_view(a: Seq<BotAction>) -> Seq<ActionView> {
    a.map_values(|x: BotAction| x@)
}

/// The commands of the main bot.
#[derive(Clone, Copy, PartialEq, Eq, Debug, Structural)]
pub enum MainCommand {
    Enable,
    Disable,
    Shutdown,
    Reset,
    ResetAll,
    /// Backups copy directories; the caller runs them.
    BackupCreate,
    BackupLoad,
    BackupCreateDefault,
}

/// Whether a command makes or loads a backup.
pub open spec fn is_backup(c: MainCommand) -> bool {
    c == MainCommand::BackupCreate || c == MainCommand::BackupLoad || c == MainCommand::BackupCreateDefault
}

/// Whether a command takes a bot's name.
pub open spec fn needs_name(c: MainCommand) -> bool {
    c == MainCommand::Enable || c == MainCommand::Disable || c == MainCommand::Reset
}

/// What a bot shows of its state.
pub enum SerializedBot {
    Custom(CustomSerialized),
    Quote(QuoteSerialized),
    Vote(VoteSerialized),
}

/// The main bot.
pub struct MainBot {
    /// The names of the bots that can be built.
    pub known: Vec<String>,
    /// The names of the running bots.
    pub active: Vec<String>,
    pub queue_shutdown: bool,
    /// The set of running bots has changed and is to be saved.
    pub active_changed: bool,
    pub commands: BotCommands<MainCommand>,
}

/// The model of the main bot.
pub struct MainView {
    pub known: Seq<Seq<char>>,
    pub active: Seq<Seq<char>>,
    pub shutdown: bool,
    pub changed: bool,
}

impl View for MainBot {
    type V = MainView;

    open spec fn view(&self) -> MainView {
        MainView {
            known: self.known.deep_view(),
            active: self.active.deep_view(),
            shutdown: self.queue_shutdown,
            changed: self.active_changed,
        }
    }
}

/// Each running bot runs once and is a known one.
pub open spec fn main_wf(v: MainView) -> bool {
    &&& v.active.no_duplicates()
    &&& forall|i: int| 0 <= i < v.active.len() ==> v.known.contains(#[trigger] v.active[i])
}

/// `!enable <name>`.
pub open spec fn enable_spec(v: MainView, name: Seq<char>) -> (MainView, Seq<char>, Seq<ActionView>) {
    if v.active.contains(name) {
        (v, name + " is already active"@, Seq::empty())
    } else if v.known.contains(name) {
        (
            MainView { active: v.active.push(name), changed: true, ..v },
            name + " is now active"@,
            seq![ActionView::Start(name)],
        )
    } else {
        (v, "I don't know about "@ + name, Seq::empty())
    }
}

/// `!disable <name>`.
pub open spec fn disable_spec(v: MainView, name: Seq<char>) -> (MainView, Seq<char>, Seq<ActionView>) {
    if v.active.contains(name) {
        (
            MainView { active: v.active.remove(v.active.index_of(name)), changed: true, ..v },
            name + " is now resting"@,
            seq![ActionView::Stop(name)],
        )
    } else if v.known.contains(name) {
        (v, name + " is already off"@, Seq::empty())
    } else {
        (v, "I don't know about "@ + name, Seq::empty())
    }
}

/// `!reset <name>`: disabling, then enabling.
pub open spec fn reset_spec(v: MainView, name: Seq<char>) -> (MainView, Seq<char>, Seq<ActionView>) {
    let (v1, _, a1) = disable_spec(v, name);
    let (v2, r, a2) = enable_spec(v1, name);
    (v2, r, a1 + a2)
}

/// The reply of `!reset all` for the bots `names`.
pub open spec fn reset_all_reply(names: Seq<Seq<char>>) -> Seq<char>
    decreases names.len(),
{
    if names.len() == 0 {
        Seq::empty()
    } else {
        reset_all_reply(names.drop_last()) + names.last() + " is now active"@ + ". "@
    }
}

/// `!reset all`: every running bot is stopped and started again.
pub open spec fn reset_all_spec(v: MainView) -> (MainView, Seq<char>, Seq<ActionView>) {
    (
        MainView { changed: v.changed || v.active.len() > 0, ..v },
        reset_all_reply(v.active),
        v.active.map_values(|n: Seq<char>| ActionView::Stop(n)) + v.active.map_values(
            |n: Seq<char>| ActionView::Start(n),
        ),
    )
}

/// Enabling a known bot and disabling it again leaves the running bots
/// as they were.
pub proof fn law_enable_then_disable(v: MainView, name: Seq<char>)
    requires
        main_wf(v),
        v.known.contains(name),
        !v.active.contains(name),
    ensures
        disable_spec(enable_spec(v, name).0, name).0.active == v.active,
        enable_spec(v, name).0.active.contains(name),
{
    let a = v.active.push(name);
    assert(a[v.active.len() as int] == name);
    a.index_of_first_ensures(name);
    let i = a.index_of(name);
    if i < v.active.len() {
        assert(v.active[i] == name);
    }
    assert(a.remove(v.active.len() as int) =~= v.active);
}

/// Resetting a known bot leaves it running.
pub proof fn law_reset_keeps_running(v: MainView, name: Seq<char>)
    requires
        main_wf(v),
        v.known.contains(name),
    ensures
        reset_spec(v, name).0.active.contains(name),
{
    let v1 = disable_spec(v, name).0;
    if v.active.contains(name) {
        v.active.index_of_first_ensures(name);
        let i = v.active.index_of(name);
        assert(!v1.active.contains(name)) by {
            if v1.active.contains(name) {
                let k = choose|k: int| 0 <= k < v1.active.len() && #[trigger] v1.active[k] == name;
                if k < i {
                    assert(v.active[k] == name);
                } else {
                    assert(v.active[k + 1] == name);
                }
            }
        }
    }
    assert(enable_spec(v1, name).0.active[v1.active.len() as int] == name);
}

/// The index of `name` in `names`.
pub(crate) fn position_of(names: &Vec<String>, name: &str) -> (r: Option<usize>)
    ensures
        match r {
            Some(i) => i < names@.len() && names.deep_view()[i as int] == name@ && forall|j: int|
                0 <= j < i ==> names.deep_view()[j] != name@,
            None => !names.deep_view().contains(name@),
        },
{
    let mut i: usize = 0;
    while i < names.len()
        invariant
            i <= names@.len(),
            forall|j: int| 0 <= j < i ==> names.deep_view()[j] != name@,
        decreases names@.len() - i,
    {
        if str_eq(names[i].as_str(), name) {
            return Some(i);
        }
        i = i + 1;
    }
    None
}

/// Keeping the known names of a list as it grows by `x`.
pub(crate) proof fn lemma_add_filtered(
    before: Seq<Seq<char>>,
    t: Seq<Seq<char>>,
    known: Seq<Seq<char>>,
    x: Seq<char>,
    added: bool,
)
    requires
        forall|n: Seq<char>| before.contains(n) <==> (t.contains(n) && known.contains(n)),
        added ==> !before.contains(x) && known.contains(x),
        !added ==> before.contains(x) || !known.contains(x),
    ensures
        forall|n: Seq<char>|
            (if added {
                before.push(x)
            } else {
                before
            }).contains(n) <==> (t.push(x).contains(n) && known.contains(n)),
{
    let after = if added {
        before.push(x)
    } else {
        before
    };
    assert forall|n: Seq<char>| after.contains(n) <==> (t.push(x).contains(n) && known.contains(n)) by {
        if t.push(x).contains(n) && n != x {
            let j = choose|j: int| 0 <= j < t.push(x).len() && #[trigger] t.push(x)[j] == n;
            assert(t[j] == n);
        }
        if t.contains(n) {
            let j = choose|j: int| 0 <= j < t.len() && #[trigger] t[j] == n;
            assert(t.push(x)[j] == n);
        }
        if added {
            if before.contains(n) {
                let j = choose|j: int| 0 <= j < before.len() && #[trigger] before[j] == n;
                assert(after[j] == n);
            }
            if after.contains(n) && n != x {
                let j = choose|j: int| 0 <= j < after.len() && #[trigger] after[j] == n;
                assert(before[j] == n);
            }
            assert(after[before.len() as int] == x);
        }
        assert(t.push(x)[t.len() as int] == x);
    }
}

impl MainBot {
    /// The bot's name.
    pub fn name() -> (r: &'static str)
        ensures
            r@ == "MainBot"@,
    {
        "MainBot"
    }

    /// A main bot that knows the bots `known`, with the known ones among
    /// `active` running, each once.
    pub fn new(known: Vec<String>, active: &Vec<String>) -> (r: (MainBot, Vec<BotAction>))
        ensures
            main_wf(r.0@),
            r.0@.known == known.deep_view(),
            !r.0@.shutdown,
            !r.0@.changed,
            forall|n: Seq<char>| r.0@.active.contains(n) <==> (active.deep_view().contains(n) && known.deep_view().contains(n)),
            actions_view(r.1@) == r.0@.active.map_values(|n: Seq<char>| ActionView::Start(n)),
    {
        let ghost kv = known.deep_view();
        let mut bot = MainBot {
            known,
            active: Vec::new(),
            queue_shutdown: false,
            active_changed: false,
            commands: MainBot::commands(),
        };
        let mut actions: Vec<BotAction> = Vec::new();
        let mut i: usize = 0;
        proof {
            assert(bot@.active =~= Seq::<Seq<char>>::empty());
            assert(actions_view(actions@) =~= bot@.active.map_values(|n: Seq<char>| ActionView::Start(n)));
            assert(active.deep_view().take(0) =~= Seq::<Seq<char>>::empty());
        }
        while i < active.len()
            invariant
                i <= active@.len(),
                main_wf(bot@),
                bot@.known == kv,
                !bot@.shutdown,
                !bot@.changed,
                forall|n: Seq<char>|
                    bot@.active.contains(n) <==> (active.deep_view().take(i as int).contains(n) && kv.contains(n)),
                actions_view(actions@) == bot@.active.map_values(|n: Seq<char>| ActionView::Start(n)),
            decreases active@.len() - i,
        {
            let name = active[i].as_str();
            let ghost a = active.deep_view();
            let ghost before = bot@.active;
            proof {
                assert(a.take(i + 1) =~= a.take(i as int).push(a[i as int]));
                assert(a[i as int] == name@);
            }
            let in_active = position_of(&bot.active, name).is_some();
            let in_known = position_of(&bot.known, name).is_some();
            if !in_active && in_known {
                bot.active.push(name.to_owned());
                let ghost acts = actions_view(actions@);
                actions.push(BotAction::Start(name.to_owned()));
                proof {
                    assert(bot@.active =~= before.push(name@));
                    assert(actions_view(actions@) =~= acts.push(ActionView::Start(name@)));
                    assert(bot@.active.map_values(|n: Seq<char>| ActionView::Start(n)) =~= before.map_values(
                        |n: Seq<char>| ActionView::Start(n),
                    ).push(ActionView::Start(name@)));
                    lemma_add_filtered(before, a.take(i as int), kv, name@, true);
                    assert forall|k: int| 0 <= k < bot@.active.len() implies bot@.known.contains(
                        #[trigger] bot@.active[k],
                    ) by {
                        if k < before.len() {
                            assert(bot@.active[k] == before[k]);
                        }
                    }
                }
            } else {
                proof {
                    lemma_add_filtered(before, a.take(i as int), kv, name@, false);
                }
            }
            i = i + 1;
        }
        proof {
            assert(active.deep_view().take(active@.len() as int) =~= active.deep_view());
        }
        (bot, actions)
    }

    /// `!enable <name>`: starts a known bot.
    pub fn enable(&mut self, bot_name: &str) -> (r: (Option<String>, Vec<BotAction>))
        requires
            main_wf(old(self)@),
        ensures
            main_wf(final(self)@),
            final(self).commands == old(self).commands,
            (final(self)@, r.0->0@, actions_view(r.1@)) == enable_spec(old(self)@, bot_name@),
            r.0 is Some,
    {
        let mut actions: Vec<BotAction> = Vec::new();
        if position_of(&self.active, bot_name).is_some() {
            proof {
                assert(actions_view(actions@) =~= Seq::<ActionView>::empty());
            }
            return (Some(concat_text(bot_name, " is already active")), actions);
        }
        match position_of(&self.known, bot_name) {
            Some(_) => {
                let ghost before = self@.active;
                self.active.push(bot_name.to_owned());
                self.active_changed = true;
                actions.push(BotAction::Start(bot_name.to_owned()));
                proof {
                    assert(self@.active =~= before.push(bot_name@));
                    assert(actions_view(actions@) =~= seq![ActionView::Start(bot_name@)]);
                    assert forall|k: int| 0 <= k < self@.active.len() implies self@.known.contains(
                        #[trigger] self@.active[k],
                    ) by {
                        if k < before.len() {
                            assert(self@.active[k] == before[k]);
                        }
                    }
                }
                (Some(concat_text(bot_name, " is now active")), actions)
            },
            None => {
                proof {
                    assert(actions_view(actions@) =~= Seq::<ActionView>::empty());
                }
                (Some(concat_text("I don't know about ", bot_name)), actions)
            },
        }
    }

    /// `!disable <name>`: stops a running bot.
    pub fn disable(&mut self, bot_name: &str) -> (r: (Option<String>, Vec<BotAction>))
        requires
            main_wf(old(self)@),
        ensures
            main_wf(final(self)@),
            final(self).commands == old(self).commands,
            (final(self)@, r.0->0@, actions_view(r.1@)) == disable_spec(old(self)@, bot_name@),
            r.0 is Some,
    {
        let mut actions: Vec<BotAction> = Vec::new();
        match position_of(&self.active, bot_name) {
            Some(i) => {
                let ghost before = self@.active;
                proof {
                    before.index_of_first_ensures(bot_name@);
                    assert(before.index_of(bot_name@) == i as int) by {
                        let k = before.index_of(bot_name@);
                        if k != i as int {
                            assert(before.no_duplicates());
                        }
                    }
                }
                self.active.remove(i);
                self.active_changed = true;
                actions.push(BotAction::Stop(bot_name.to_owned()));
                proof {
                    assert(self@.active =~= before.remove(i as int));
                    assert(actions_view(actions@) =~= seq![ActionView::Stop(bot_name@)]);
                    assert forall|k: int| 0 <= k < self@.active.len() implies self@.known.contains(
                        #[trigger] self@.active[k],
                    ) by {
                        if k < i {
                            assert(self@.active[k] == before[k]);
                        } else {
                            assert(self@.active[k] == before[k + 1]);
                        }
                    }
                    assert(self@.active.no_duplicates()) by {
                        assert forall|a: int, b: int|
                            0 <= a < self@.active.len() && 0 <= b < self@.active.len() && a != b implies self@.active[a]
                            != self@.active[b] by {
                            let a1 = if a < i { a } else { a + 1 };
                            let b1 = if b < i { b } else { b + 1 };
                            assert(self@.active[a] == before[a1]);
                            assert(self@.active[b] == before[b1]);
                        }
                    }
                }
                (Some(concat_text(bot_name, " is now resting")), actions)
            },
            None => {
                proof {
                    assert(actions_view(actions@) =~= Seq::<ActionView>::empty());
                }
                if position_of(&self.known, bot_name).is_some() {
                    (Some(concat_text(bot_name, " is already off")), actions)
                } else {
                    (Some(concat_text("I don't know about ", bot_name)), actions)
                }
            },
        }
    }

    /// `!reset <name>`: stops the bot if it runs, then starts it.
    pub fn reset(&mut self, bot_name: &str) -> (r: (Option<String>, Vec<BotAction>))
        requires
            main_wf(old(self)@),
        ensures
            main_wf(final(self)@),
            final(self).commands == old(self).commands,
            (final(self)@, r.0->0@, actions_view(r.1@)) == reset_spec(old(self)@, bot_name@),
            r.0 is Some,
    {
        let (_, mut actions) = self.disable(bot_name);
        let (reply, mut more) = self.enable(bot_name);
        let ghost a1 = actions_view(actions@);
        let ghost a2 = actions_view(more@);
        actions.append(&mut more);
        proof {
            assert(actions_view(actions@) =~= a1 + a2);
        }
        (reply, actions)
    }

    /// `!reset all`: stops every running bot and starts it again.
    pub fn reset_all(&mut self) -> (r: (Option<String>, Vec<BotAction>))
        requires
            main_wf(old(self)@),
        ensures
            main_wf(final(self)@),
            final(self).commands == old(self).commands,
            (final(self)@, r.0->0@, actions_view(r.1@)) == reset_all_spec(old(self)@),
            r.0 is Some,
    {
        let ghost v = self@;
        let mut names: Vec<String> = Vec::new();
        std::mem::swap(&mut names, &mut self.active);
        let ghost l = names.deep_view();
        let mut actions: Vec<BotAction> = Vec::new();
        let mut i: usize = 0;
        while i < names.len()
            invariant
                i <= names@.len(),
                l == names.deep_view(),
                actions_view(actions@) == l.take(i as int).map_values(|n: Seq<char>| ActionView::Stop(n)),
            decreases names@.len() - i,
        {
            let ghost before = actions_view(actions@);
            actions.push(BotAction::Stop(names[i].clone()));
            proof {
                assert(actions_view(actions@) =~= before.push(ActionView::Stop(l[i as int])));
                assert(l.take(i + 1).map_values(|n: Seq<char>| ActionView::Stop(n)) =~= l.take(
                    i as int,
                ).map_values(|n: Seq<char>| ActionView::Stop(n)).push(ActionView::Stop(l[i as int])));
            }
            i = i + 1;
        }
        proof {
            assert(l.take(l.len() as int) =~= l);
        }
        let ghost stops = actions_view(actions@);
        let mut reply = String::new();
        let mut j: usize = 0;
        proof {
            assert(self@.active =~= l.take(0));
            assert(stops =~= stops + l.take(0).map_values(|n: Seq<char>| ActionView::Start(n)));
        }
        while j < names.len()
            invariant
                j <= names@.len(),
                l == names.deep_view(),
                l == v.active,
                main_wf(v),
                self@.known == v.known,
                self@.shutdown == v.shutdown,
                self.commands == old(self).commands,
                self@.active == l.take(j as int),
                self@.changed == (v.changed || j > 0),
                reply@ == reset_all_reply(l.take(j as int)),
                actions_view(actions@) == stops + l.take(j as int).map_values(|n: Seq<char>| ActionView::Start(n)),
            decreases names@.len() - j,
        {
            proof {
                assert(!l.take(j as int).contains(l[j as int])) by {
                    if l.take(j as int).contains(l[j as int]) {
                        let k = choose|k: int| 0 <= k < j && #[trigger] l.take(j as int)[k] == l[j as int];
                        assert(l[k] == l[j as int]);
                    }
                }
                assert(v.known.contains(l[j as int]));
                assert forall|k: int| 0 <= k < self@.active.len() implies v.known.contains(
                    #[trigger] self@.active[k],
                ) by {
                    assert(self@.active[k] == l[k]);
                }
                assert(self@.active.no_duplicates()) by {
                    assert forall|a: int, b: int|
                        0 <= a < self@.active.len() && 0 <= b < self@.active.len() && a != b implies self@.active[a]
                        != self@.active[b] by {
                        assert(self@.active[a] == l[a] && self@.active[b] == l[b]);
                    }
                }
            }
            let ghost before_actions = actions_view(actions@);
            let (answer, mut started) = self.enable(names[j].as_str());
            let ghost started_v = actions_view(started@);
            actions.append(&mut started);
            match answer {
                Some(answer) => {
                    reply.append(answer.as_str());
                    reply.append(". ");
                },
                None => {},
            }
            proof {
                assert(l.take(j + 1) =~= l.take(j as int).push(l[j as int]));
                assert(l.take(j + 1).drop_last() =~= l.take(j as int));
                assert(actions_view(actions@) =~= before_actions + started_v);
                assert(l.take(j + 1).map_values(|n: Seq<char>| ActionView::Start(n)) =~= l.take(
                    j as int,
                ).map_values(|n: Seq<char>| ActionView::Start(n)).push(ActionView::Start(l[j as int])));
            }
            j = j + 1;
        }
        proof {
            assert(l.take(l.len() as int) =~= l);
        }
        (Some(reply), actions)
    }

    /// `!shutdown`: the caller is to stop.
    pub fn shutdown(&mut self) -> (r: Option<String>)
        ensures
            final(self)@ == (MainView { shutdown: true, ..old(self)@ }),
            final(self).commands == old(self).commands,
            reply_is(r, "Shutting down..."@),
    {
        self.queue_shutdown = true;
        Some("Shutting down...".to_owned())
    }

    /// Runs `command` with `args`, as the command tree found it in a
    /// message; backups are run by the caller.
    pub fn perform(&mut self, command: MainCommand, args: &Vec<String>) -> (r: (Option<String>, Vec<BotAction>))
        requires
            main_wf(old(self)@),
            !is_backup(command),
            needs_name(command) ==> args@.len() >= 1,
        ensures
            main_wf(final(self)@),
            final(self).commands == old(self).commands,
            r.0 is Some,
            (final(self)@, r.0->0@, actions_view(r.1@)) == match command {
                MainCommand::Enable => enable_spec(old(self)@, args@[0]@),
                MainCommand::Disable => disable_spec(old(self)@, args@[0]@),
                MainCommand::Reset => reset_spec(old(self)@, args@[0]@),
                MainCommand::ResetAll => reset_all_spec(old(self)@),
                _ => (MainView { shutdown: true, ..old(self)@ }, "Shutting down..."@, Seq::empty()),
            },
    {
        match command {
            MainCommand::Enable => self.enable(args[0].as_str()),
            MainCommand::Disable => self.disable(args[0].as_str()),
            MainCommand::Reset => self.reset(args[0].as_str()),
            MainCommand::ResetAll => self.reset_all(),
            _ => {
                let reply = self.shutdown();
                let actions: Vec<BotAction> = Vec::new();
                proof {
                    assert(actions_view(actions@) =~= Seq::<ActionView>::empty());
                }
                (reply, actions)
            },
        }
    }

    /// The bot's command tree.
    pub fn commands() -> (r: BotCommands<MainCommand>)
        ensures
            r.commands@.len() == 5,
            is_literal(r.commands@[0], "!enable"@, 1),
            word_runs(child(r.commands@[0], 0), AuthorityLevel::Moderator, MainCommand::Enable),
            is_literal(r.commands@[1], "!disable"@, 1),
            word_runs(child(r.commands@[1], 0), AuthorityLevel::Moderator, MainCommand::Disable),
            literal_runs(r.commands@[2], "!shutdown"@, AuthorityLevel::Broadcaster, MainCommand::Shutdown),
            is_literal(r.commands@[3], "!reset"@, 2),
            word_runs(child(r.commands@[3], 0), AuthorityLevel::Moderator, MainCommand::Reset),
            literal_runs(child(r.commands@[3], 1), "all"@, AuthorityLevel::Moderator, MainCommand::ResetAll),
            is_literal(r.commands@[4], "!backup"@, 3),
            is_literal(child(r.commands@[4], 0), "create"@, 1),
            word_runs(child(child(r.commands@[4], 0), 0), AuthorityLevel::Moderator, MainCommand::BackupCreate),
            is_literal(child(r.commands@[4], 1), "load"@, 1),
            word_runs(child(child(r.commands@[4], 1), 0), AuthorityLevel::Moderator, MainCommand::BackupLoad),
            literal_runs(
                child(r.commands@[4], 2),
                "create"@,
                AuthorityLevel::Moderator,
                MainCommand::BackupCreateDefault,
            ),
    {
        let m = AuthorityLevel::Moderator;
        let b = AuthorityLevel::Broadcaster;
        let commands = vec![
            literal_node("!enable", vec![word_node(final_node(m, MainCommand::Enable))]),
            literal_node("!disable", vec![word_node(final_node(m, MainCommand::Disable))]),
            literal_node("!shutdown", vec![final_node(b, MainCommand::Shutdown)]),
            literal_node(
                "!reset",
                vec![word_node(final_node(m, MainCommand::Reset)), literal_node("all", vec![final_node(m, MainCommand::ResetAll)])],
            ),
            literal_node(
                "!backup",
                vec![
                    literal_node("create", vec![word_node(final_node(m, MainCommand::BackupCreate))]),
                    literal_node("load", vec![word_node(final_node(m, MainCommand::BackupLoad))]),
                    literal_node("create", vec![final_node(m, MainCommand::BackupCreateDefault)]),
                ],
            ),
        ];
        BotCommands { commands }
    }
}

} // verus!
