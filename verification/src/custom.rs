//! The custom-command bot: moderators define commands that answer with a
//! fixed text.

use vstd::prelude::*;
use crate::commands::{
    child, final_node, is_literal, line_node, literal_node, word_line_runs, word_node, word_runs, AuthorityLevel,
    BotCommands,
};
use crate::table::{has_key, lemma_has_key, lemma_key_index, lemma_remove_keys, lemma_upsert_keys, lookup,
    remove_key, upsert, TextTable};
use crate::text::{concat_text, has_prefix, starts_with, trim, trim_seq};
use vstd::string::{StrSliceExecFns, StringExecFns};

verus! {

/// The saved custom commands: each name with its answer.
pub struct CustomConfig {
    pub commands: TextTable,
}

/// What the custom-command bot shows of its state.
pub struct CustomSerialized {
    pub config: CustomConfig,
}

/// The commands that manage custom commands.
#[derive(Clone, Copy, PartialEq, Eq, Debug, Structural)]
pub enum CustomCommand {
    New,
    Delete,
    Edit,
}

/// The model of the bot: the commands with their answers, the names that
/// the chat can call in the order they were added (a name is there again
/// after each edit), and whether the commands are to be saved.
pub struct CustomView {
    pub commands: Seq<(Seq<char>, Seq<char>)>,
    pub callable: Seq<Seq<char>>,
    pub changed: bool,
}

/// The custom-command bot.
pub struct CustomBot {
    pub config: CustomConfig,
    /// The commands that manage custom commands.
    pub commands: BotCommands<CustomCommand>,
    /// The names that the chat can call, in the order they were added.
    pub callable: Vec<String>,
    pub config_changed: bool,
}

impl View for CustomBot {
    type V = CustomView;

    open spec fn view(&self) -> CustomView {
        CustomView { commands: self.config.commands@, callable: self.callable.deep_view(), changed: self.config_changed }
    }
}

/// No name has two answers, and every command can be called.
pub open spec fn custom_wf(v: CustomView) -> bool {
    &&& crate::table::keys_unique(v.commands)
    &&& forall|k: Seq<char>| #[trigger] has_key(v.commands, k) ==> v.callable.contains(k)
}

/// The index of the first `name` in `s`.
pub open spec fn first_index(s: Seq<Seq<char>>, name: Seq<char>) -> int {
    choose|i: int| 0 <= i < s.len() && s[i] == name && forall|j: int| 0 <= j < i ==> s[j] != name
}

/// Storing `response` under `name` and making `name` callable once more.
pub open spec fn update_spec(v: CustomView, name: Seq<char>, response: Seq<char>) -> CustomView {
    CustomView { commands: upsert(v.commands, name, response), callable: v.callable.push(name), changed: true }
}

/// `!command new <name> <response>`.
pub open spec fn new_spec(v: CustomView, args: Seq<Seq<char>>) -> (CustomView, Option<Seq<char>>) {
    if args.len() == 2 && !has_key(v.commands, args[0]) {
        (
            update_spec(v, args[0], args[1]),
            Some("Added new command "@ + args[0] + ": "@ + args[1]),
        )
    } else {
        (v, None)
    }
}

/// `!command delete <name>`.
pub open spec fn delete_spec(v: CustomView, name: Seq<char>) -> (CustomView, Option<Seq<char>>) {
    match lookup(v.commands, name) {
        Some(response) => (
            CustomView {
                commands: remove_key(v.commands, name),
                callable: v.callable.remove(first_index(v.callable, name)),
                changed: true,
            },
            Some("Deleted command "@ + name + ": "@ + response),
        ),
        None => (v, None),
    }
}

/// `!command edit <name> <response>`.
pub open spec fn edit_spec(v: CustomView, args: Seq<Seq<char>>) -> (CustomView, Option<Seq<char>>) {
    if args.len() == 2 {
        match lookup(v.commands, args[0]) {
            Some(old) => (
                update_spec(v, args[0], args[1]),
                Some("Edited command "@ + args[0] + ": "@ + old + ". New command: "@ + args[1]),
            ),
            None => (v, None),
        }
    } else {
        (v, None)
    }
}

/// Whether a message calls the command `name`: it is `name`, maybe
/// followed by whitespace.
pub open spec fn calls(msg: Seq<char>, name: Seq<char>) -> bool {
    has_prefix(msg, name) && trim_seq(msg.subrange(name.len() as int, msg.len() as int)).len() == 0
}

/// The callable names that a message calls, in order.
pub open spec fn called(callable: Seq<Seq<char>>, msg: Seq<char>) -> Seq<Seq<char>>
    decreases callable.len(),
{
    if callable.len() == 0 {
        Seq::empty()
    } else {
        let prev = called(callable.drop_last(), msg);
        if calls(msg, callable.last()) {
            prev.push(callable.last())
        } else {
            prev
        }
    }
}

/// Removing the first occurrence of a name keeps the others.
proof fn lemma_remove_first(s: Seq<Seq<char>>, name: Seq<char>, k: Seq<char>)
    requires
        s.contains(name),
        s.contains(k),
        k != name,
    ensures
        0 <= first_index(s, name) < s.len(),
        s[first_index(s, name)] == name,
        s.remove(first_index(s, name)).contains(k),
{
    let w = choose|i: int| 0 <= i < s.len() && s[i] == name;
    lemma_first_exists(s, name, w);
    let i = first_index(s, name);
    let j = choose|j: int| 0 <= j < s.len() && s[j] == k;
    if j < i {
        assert(s.remove(i)[j] == k);
    } else {
        assert(s.remove(i)[j - 1] == k);
    }
}

proof fn lemma_first_exists(s: Seq<Seq<char>>, name: Seq<char>, w: int)
    requires
        0 <= w < s.len(),
        s[w] == name,
    ensures
        exists|i: int| 0 <= i < s.len() && s[i] == name && forall|j: int| 0 <= j < i ==> s[j] != name,
    decreases w,
{
    if exists|j: int| 0 <= j < w && s[j] == name {
        let j = choose|j: int| 0 <= j < w && s[j] == name;
        lemma_first_exists(s, name, j);
    }
}

/// A new command answers with its response and can be called.
pub proof fn law_new_command_answers(v: CustomView, args: Seq<Seq<char>>)
    requires
        custom_wf(v),
        args.len() == 2,
        !has_key(v.commands, args[0]),
    ensures
        lookup(new_spec(v, args).0.commands, args[0]) == Some(args[1]),
        new_spec(v, args).0.callable.contains(args[0]),
{
    crate::table::lemma_upsert_unique(v.commands, args[0], args[1]);
    assert(new_spec(v, args).0.callable[v.callable.len() as int] == args[0]);
}

/// An edited command answers with its new response.
pub proof fn law_edit_command_answers(v: CustomView, args: Seq<Seq<char>>)
    requires
        custom_wf(v),
        args.len() == 2,
        has_key(v.commands, args[0]),
    ensures
        lookup(edit_spec(v, args).0.commands, args[0]) == Some(args[1]),
{
    lemma_key_index(v.commands, args[0], 0);
    crate::table::lemma_upsert_unique(v.commands, args[0], args[1]);
}

/// A deleted command no longer answers.
pub proof fn law_delete_command_forgets(v: CustomView, name: Seq<char>)
    requires
        custom_wf(v),
    ensures
        lookup(delete_spec(v, name).0.commands, name) is None,
{
    crate::table::lemma_remove_unique(v.commands, name);
}

impl CustomBot {
    /// The bot's name.
    pub fn name() -> (r: &'static str)
        ensures
            r@ == "CustomBot"@,
    {
        "CustomBot"
    }

    /// A bot with the given commands, each callable once.
    pub fn new(config: CustomConfig) -> (r: CustomBot)
        requires
            config.commands.wf(),
        ensures
            custom_wf(r@),
            r@.commands == config.commands@,
            r@.callable == config.commands@.map_values(|e: (Seq<char>, Seq<char>)| e.0),
            !r@.changed,
    {
        let mut callable: Vec<String> = Vec::new();
        let n = config.commands.len();
        let ghost t = config.commands@;
        let mut i: usize = 0;
        while i < n
            invariant
                i <= n,
                n == t.len(),
                t == config.commands@,
                callable.deep_view() == t.take(i as int).map_values(|e: (Seq<char>, Seq<char>)| e.0),
            decreases n - i,
        {
            let (name, _) = config.commands.entry(i);
            let ghost before = callable.deep_view();
            callable.push(name);
            proof {
                assert(callable.deep_view() =~= before.push(t[i as int].0));
                assert(t.take(i + 1).map_values(|e: (Seq<char>, Seq<char>)| e.0) =~= t.take(i as int).map_values(
                    |e: (Seq<char>, Seq<char>)| e.0,
                ).push(t[i as int].0));
            }
            i = i + 1;
        }
        let r = CustomBot { config, commands: CustomBot::commands(), callable, config_changed: false };
        proof {
            assert(t.take(n as int) =~= t);
            assert forall|k: Seq<char>| #[trigger] has_key(r@.commands, k) implies r@.callable.contains(k) by {
                lemma_has_key(t, k);
                let j = choose|j: int| 0 <= j < t.len() && (#[trigger] t[j]).0 == k;
                assert(r@.callable[j] == k);
            }
        }
        r
    }

    /// The names that the chat can call, in the order they were added.
    pub fn callable(&self) -> (r: &Vec<String>)
        ensures
            r.deep_view() == self@.callable,
    {
        &self.callable
    }

    fn update_command(&mut self, command_name: String, command_response: String)
        requires
            custom_wf(old(self)@),
        ensures
            custom_wf(final(self)@),
            final(self)@ == update_spec(old(self)@, command_name@, command_response@),
            final(self).commands == old(self).commands,
    {
        let ghost v = self@;
        proof {
            crate::table::lemma_upsert_unique(v.commands, command_name@, command_response@);
        }
        self.config.commands.insert(command_name.clone(), command_response);
        let ghost before = self.callable.deep_view();
        self.callable.push(command_name);
        self.config_changed = true;
        proof {
            assert(self.callable.deep_view() =~= before.push(command_name@));
            assert forall|k: Seq<char>| #[trigger] has_key(self@.commands, k) implies self@.callable.contains(k) by {
                lemma_upsert_keys(v.commands, command_name@, command_response@, k);
                if k != command_name@ {
                    let j = choose|j: int| 0 <= j < v.callable.len() && v.callable[j] == k;
                    assert(self@.callable[j] == k);
                } else {
                    assert(self@.callable[v.callable.len() as int] == k);
                }
            }
        }
    }

    /// `!command new`: adds a command, unless the name is taken.
    pub fn new_command(&mut self, args: &Vec<String>) -> (r: Option<String>)
        requires
            custom_wf(old(self)@),
        ensures
            custom_wf(final(self)@),
            (final(self)@, crate::gamejam::bot::opt_text(r)) == new_spec(old(self)@, args.deep_view()),
            final(self).commands == old(self).commands,
    {
        if args.len() != 2 {
            return None;
        }
        let name = args[0].clone();
        let response = args[1].clone();
        if self.config.commands.contains_key(name.as_str()) {
            return None;
        }
        let mut reply = concat_text("Added new command ", name.as_str());
        reply.append(": ");
        reply.append(response.as_str());
        self.update_command(name, response);
        Some(reply)
    }

    /// `!command delete`: removes a command, and the first place where
    /// the chat can call it.
    pub fn delete_command(&mut self, command_name: &str) -> (r: Option<String>)
        requires
            custom_wf(old(self)@),
        ensures
            custom_wf(final(self)@),
            (final(self)@, crate::gamejam::bot::opt_text(r)) == delete_spec(old(self)@, command_name@),
            final(self).commands == old(self).commands,
    {
        let ghost v = self@;
        proof {
            lemma_key_index(v.commands, command_name@, 0);
            crate::table::lemma_remove_unique(v.commands, command_name@);
        }
        match self.config.commands.remove(command_name) {
            Some(response) => {
                proof {
                    assert(has_key(v.commands, command_name@));
                    let w = choose|i: int| 0 <= i < v.callable.len() && v.callable[i] == command_name@;
                    lemma_first_exists(v.callable, command_name@, w);
                }
                let ghost idx = first_index(v.callable, command_name@);
                let mut i: usize = 0;
                while i < self.callable.len()
                    invariant
                        i <= idx,
                        0 <= idx < self.callable@.len(),
                        self.callable.deep_view() == v.callable,
                        v.callable[idx] == command_name@,
                        forall|j: int| 0 <= j < idx ==> v.callable[j] != command_name@,
                    ensures
                        i == idx,
                    decreases self.callable@.len() - i,
                {
                    if crate::text::str_eq(self.callable[i].as_str(), command_name) {
                        assert(self.callable.deep_view()[i as int] == self.callable@[i as int]@);
                        break;
                    }
                    i = i + 1;
                }
                let ghost before = self.callable.deep_view();
                self.callable.remove(i);
                self.config_changed = true;
                proof {
                    assert(self.callable.deep_view() =~= before.remove(idx));
                    assert forall|k: Seq<char>| #[trigger] has_key(self@.commands, k) implies self@.callable.contains(
                        k,
                    ) by {
                        lemma_remove_keys(v.commands, command_name@, k);
                        lemma_remove_first(v.callable, command_name@, k);
                    }
                }
                let mut reply = concat_text("Deleted command ", command_name);
                reply.append(": ");
                reply.append(response.as_str());
                Some(reply)
            },
            None => None,
        }
    }

    /// `!command edit`: replaces the answer of a command.
    pub fn edit_command(&mut self, args: &Vec<String>) -> (r: Option<String>)
        requires
            custom_wf(old(self)@),
        ensures
            custom_wf(final(self)@),
            (final(self)@, crate::gamejam::bot::opt_text(r)) == edit_spec(old(self)@, args.deep_view()),
            final(self).commands == old(self).commands,
    {
        if args.len() != 2 {
            return None;
        }
        match self.config.commands.get(args[0].as_str()) {
            Some(old_response) => {
                let mut reply = concat_text("Edited command ", args[0].as_str());
                reply.append(": ");
                reply.append(old_response.as_str());
                reply.append(". New command: ");
                reply.append(args[1].as_str());
                self.update_command(args[0].clone(), args[1].clone());
                Some(reply)
            },
            None => None,
        }
    }

    /// Runs a command that manages custom commands, as the command tree
    /// found it in a message.
    pub fn perform(&mut self, command: CustomCommand, args: &Vec<String>) -> (r: Option<String>)
        requires
            custom_wf(old(self)@),
            command == CustomCommand::Delete ==> args@.len() >= 1,
        ensures
            custom_wf(final(self)@),
            final(self).commands == old(self).commands,
            (final(self)@, crate::gamejam::bot::opt_text(r)) == match command {
                CustomCommand::New => new_spec(old(self)@, args.deep_view()),
                CustomCommand::Delete => delete_spec(old(self)@, args@[0]@),
                CustomCommand::Edit => edit_spec(old(self)@, args.deep_view()),
            },
    {
        match command {
            CustomCommand::New => self.new_command(args),
            CustomCommand::Delete => self.delete_command(args[0].as_str()),
            CustomCommand::Edit => self.edit_command(args),
        }
    }

    /// The answer of the custom command `command_name`.
    pub fn reply(&self, command_name: &str) -> (r: Option<String>)
        requires
            has_key(self@.commands, command_name@),
        ensures
            r matches Some(x) && Some(x@) == lookup(self@.commands, command_name@),
    {
        proof {
            lemma_key_index(self@.commands, command_name@, 0);
        }
        self.config.commands.get(command_name)
    }

    /// The custom commands that `message_text` calls, in the order they
    /// were added.
    pub fn called_commands(&self, message_text: &str) -> (r: Vec<String>)
        ensures
            r.deep_view() == called(self@.callable, message_text@),
    {
        let ghost c = self@.callable;
        let mut r: Vec<String> = Vec::new();
        let mut i: usize = 0;
        while i < self.callable.len()
            invariant
                i <= c.len(),
                c == self.callable.deep_view(),
                r.deep_view() == called(c.take(i as int), message_text@),
            decreases c.len() - i,
        {
            proof {
                assert(c.take(i + 1).drop_last() =~= c.take(i as int));
            }
            let name = self.callable[i].as_str();
            if starts_with(message_text, name) {
                let len = message_text.unicode_len();
                let rest = trim(message_text.substring_char(name.unicode_len(), len));
                if rest.unicode_len() == 0 {
                    let ghost before = r.deep_view();
                    r.push(name.to_owned());
                    proof {
                        assert(r.deep_view() =~= before.push(name@));
                    }
                }
            }
            i = i + 1;
        }
        proof {
            assert(c.take(c.len() as int) =~= c);
        }
        r
    }

    /// What the bot shows of its state.
    pub fn serialize(&self) -> (r: CustomSerialized)
        ensures
            r.config.commands@ == self@.commands,
    {
        CustomSerialized { config: CustomConfig { commands: self.config.commands.copy() } }
    }

    /// The commands that manage custom commands.
    pub fn commands() -> (r: BotCommands<CustomCommand>)
        ensures
            r.commands@.len() == 1,
            is_literal(r.commands@[0], "!command"@, 3),
            is_literal(child(r.commands@[0], 0), "new"@, 1),
            word_line_runs(child(child(r.commands@[0], 0), 0), AuthorityLevel::Moderator, CustomCommand::New),
            is_literal(child(r.commands@[0], 1), "delete"@, 1),
            word_runs(child(child(r.commands@[0], 1), 0), AuthorityLevel::Moderator, CustomCommand::Delete),
            is_literal(child(r.commands@[0], 2), "edit"@, 1),
            word_line_runs(child(child(r.commands@[0], 2), 0), AuthorityLevel::Moderator, CustomCommand::Edit),
    {
        let m = AuthorityLevel::Moderator;
        let root = literal_node(
            "!command",
            vec![
                literal_node("new", vec![word_node(line_node(final_node(m, CustomCommand::New)))]),
                literal_node("delete", vec![word_node(final_node(m, CustomCommand::Delete))]),
                literal_node("edit", vec![word_node(line_node(final_node(m, CustomCommand::Edit)))]),
            ],
        );
        BotCommands { commands: vec![root] }
    }
}

} // verus!
