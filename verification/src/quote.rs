//! The quote bot: moderators keep a book of named quotes that viewers can
//! ask for by name or at random.

use vstd::prelude::*;
use crate::commands::{
    child, final_node, is_literal, line_node, literal_node, runs, two_words_run, word_line_runs, word_node,
    word_runs, AuthorityLevel, BotCommands,
};
use crate::random::choose_index;
use crate::table::{has_key, lemma_key_index, lookup, remove_key, upsert, TextTable};
use crate::text::{concat_text, reply_is};
use vstd::string::StringExecFns;

verus! {

/// How `{:?}` shows a text: quoted, with special characters escaped, as
/// `<str as core::fmt::Debug>::fmt` writes it.
pub uninterp spec fn debug_str(s: Seq<char>) -> Seq<char>;

/// `s` as `{:?}` shows it, by `<str as core::fmt::Debug>::fmt`. The
/// contract only names the result: it is a function of `s` alone.
#[verifier::external_body]
fn debug_text(s: &str) -> (r: String)
    ensures
        r@ == debug_str(s@),
{
    format!("{:?}", s)
}

/// The saved quotes.
pub struct QuoteConfig {
    pub quotes: TextTable,
}

/// What the quote bot shows of its state.
pub struct QuoteSerialized {
    pub config: QuoteConfig,
}

/// The commands of the quote bot.
#[derive(Clone, Copy, PartialEq, Eq, Debug, Structural)]
pub enum QuoteCommand {
    Random,
    New,
    Remove,
    Edit,
    Rename,
    Get,
}

/// How many arguments a command takes.
pub open spec fn quote_arity(c: QuoteCommand) -> nat {
    match c {
        QuoteCommand::Random => 0,
        QuoteCommand::Remove | QuoteCommand::Get => 1,
        _ => 2,
    }
}

impl QuoteCommand {
    /// How many arguments the command takes.
    pub fn args_needed(self) -> (n: usize)
        ensures
            n == quote_arity(self),
    {
        match self {
            QuoteCommand::Random => 0,
            QuoteCommand::Remove | QuoteCommand::Get => 1,
            _ => 2,
        }
    }
}

/// The model of the quote bot: the quotes and whether they are to be
/// saved.
pub struct QuoteView {
    pub quotes: Seq<(Seq<char>, Seq<char>)>,
    pub changed: bool,
}

/// The quote bot.
pub struct QuoteBot {
    pub config: QuoteConfig,
    pub commands: BotCommands<QuoteCommand>,
    /// The quotes have changed and are to be saved.
    pub config_changed: bool,
}

impl View for QuoteBot {
    type V = QuoteView;

    open spec fn view(&self) -> QuoteView {
        QuoteView { quotes: self.config.quotes@, changed: self.config_changed }
    }
}

/// A pick among `n` quotes: an index in range, or none where there are
/// none.
pub open spec fn valid_choice(n: nat, c: Option<int>) -> bool {
    match c {
        Some(i) => 0 <= i < n,
        None => n == 0,
    }
}

/// The reply to a name that has no quote.
pub open spec fn unknown_reply(name: Seq<char>) -> Seq<char> {
    "I don't know any quote named "@ + name + ". Try creating one with !quote new <quote_name> <quote>"@
}

/// `Quote <name>: <quote>` for the `i`-th quote.
pub open spec fn quote_line(q: Seq<(Seq<char>, Seq<char>)>, i: int) -> Seq<char> {
    "Quote "@ + q[i].0 + ": "@ + q[i].1
}

/// The reply to a request for a random quote that picked `choice`.
pub open spec fn random_reply(q: Seq<(Seq<char>, Seq<char>)>, choice: Option<int>) -> Seq<char> {
    match choice {
        Some(i) => quote_line(q, i),
        None => "No quotes yet. Add new ones with !quote add <quote>"@,
    }
}

/// Adding a quote under a new name.
pub open spec fn new_spec(v: QuoteView, name: Seq<char>, quote: Seq<char>) -> (QuoteView, Seq<char>) {
    if has_key(v.quotes, name) {
        (v, "A quote with the name "@ + name + " already exists"@)
    } else {
        (
            QuoteView { quotes: upsert(v.quotes, name, quote), changed: true },
            "Added new quote "@ + name + ": "@ + quote,
        )
    }
}

/// Removing a quote.
pub open spec fn remove_spec(v: QuoteView, name: Seq<char>) -> (QuoteView, Seq<char>) {
    match lookup(v.quotes, name) {
        Some(q) => (
            QuoteView { quotes: remove_key(v.quotes, name), changed: true },
            "Deleted quote "@ + debug_str(name) + ": "@ + q,
        ),
        None => (v, unknown_reply(name)),
    }
}

/// Replacing a quote.
pub open spec fn edit_spec(v: QuoteView, name: Seq<char>, quote: Seq<char>) -> (QuoteView, Seq<char>) {
    match lookup(v.quotes, name) {
        Some(q) => (
            QuoteView { quotes: upsert(v.quotes, name, quote), changed: true },
            "Edited quote "@ + name + ": "@ + q + ". New quote: "@ + quote,
        ),
        None => (v, unknown_reply(name)),
    }
}

/// The quote named `name`.
pub open spec fn get_spec(v: QuoteView, name: Seq<char>) -> Seq<char> {
    match lookup(v.quotes, name) {
        Some(q) => q,
        None => unknown_reply(name),
    }
}

/// Giving a quote a new name.
pub open spec fn rename_spec(v: QuoteView, name: Seq<char>, new_name: Seq<char>) -> (QuoteView, Seq<char>) {
    if has_key(v.quotes, new_name) {
        (v, "A quote with name "@ + new_name + " already exists"@)
    } else {
        match lookup(v.quotes, name) {
            Some(q) => (
                QuoteView { quotes: upsert(remove_key(v.quotes, name), new_name, q), changed: true },
                "Changed quote's name from "@ + name + " to "@ + new_name,
            ),
            None => (v, "No quote with name "@ + name + " found"@),
        }
    }
}

/// A quote added under a new name is what that name then gives.
pub proof fn law_new_then_get(v: QuoteView, name: Seq<char>, quote: Seq<char>)
    requires
        crate::table::keys_unique(v.quotes),
        !has_key(v.quotes, name),
    ensures
        get_spec(new_spec(v, name, quote).0, name) == quote,
{
    crate::table::lemma_upsert_unique(v.quotes, name, quote);
}

/// An edited quote is what its name then gives.
pub proof fn law_edit_then_get(v: QuoteView, name: Seq<char>, quote: Seq<char>)
    requires
        crate::table::keys_unique(v.quotes),
        has_key(v.quotes, name),
    ensures
        get_spec(edit_spec(v, name, quote).0, name) == quote,
{
    crate::table::lemma_upsert_unique(v.quotes, name, quote);
}

/// A removed quote is no longer known.
pub proof fn law_remove_then_get(v: QuoteView, name: Seq<char>)
    requires
        crate::table::keys_unique(v.quotes),
    ensures
        get_spec(remove_spec(v, name).0, name) == unknown_reply(name),
{
    crate::table::lemma_remove_unique(v.quotes, name);
}

/// A renamed quote is found under its new name only.
pub proof fn law_rename_moves(v: QuoteView, name: Seq<char>, new_name: Seq<char>)
    requires
        crate::table::keys_unique(v.quotes),
        has_key(v.quotes, name),
        !has_key(v.quotes, new_name),
    ensures
        get_spec(rename_spec(v, name, new_name).0, new_name) == lookup(v.quotes, name)->0,
        get_spec(rename_spec(v, name, new_name).0, name) == unknown_reply(name),
{
    lemma_key_index(v.quotes, name, 0);
    crate::table::lemma_remove_unique(v.quotes, name);
    crate::table::lemma_upsert_unique(remove_key(v.quotes, name), new_name, lookup(v.quotes, name)->0);
    if name == new_name {
        assert(false);
    }
}

impl QuoteBot {
    /// The bot's name.
    pub fn name() -> (r: &'static str)
        ensures
            r@ == "QuoteBot"@,
    {
        "QuoteBot"
    }

    /// A bot with the given quotes.
    pub fn new(config: QuoteConfig) -> (r: QuoteBot)
        requires
            config.quotes.wf(),
        ensures
            r.wf(),
            r@ == (QuoteView { quotes: config.quotes@, changed: false }),
            r.commands.commands@.len() == 1,
    {
        QuoteBot { config, commands: QuoteBot::commands(), config_changed: false }
    }

    /// No name occurs twice.
    pub open spec fn wf(&self) -> bool {
        self.config.quotes.wf()
    }

    /// The reply to a random-quote request that picked the `choice`-th
    /// quote (none where there are none).
    pub fn quote_reply(&self, choice: Option<usize>) -> (r: Option<String>)
        requires
            match choice {
                Some(i) => i < self@.quotes.len(),
                None => self@.quotes.len() == 0,
            },
        ensures
            r matches Some(x) && x@ == random_reply(
                self@.quotes,
                match choice {
                    Some(i) => Some(i as int),
                    None => None,
                },
            ),
    {
        match choice {
            Some(i) => {
                let (name, quote) = self.config.quotes.entry(i);
                let mut r = concat_text("Quote ", name.as_str());
                r.append(": ");
                r.append(quote.as_str());
                Some(r)
            },
            None => Some("No quotes yet. Add new ones with !quote add <quote>".to_owned()),
        }
    }

    /// A quote picked at random (by `rand`), each with the same chance.
    pub fn quote_random(&self) -> (r: Option<String>)
        ensures
            exists|c: Option<int>|
                valid_choice(self@.quotes.len(), c) && reply_is(r, #[trigger] random_reply(self@.quotes, c)),
    {
        let mut indices: Vec<usize> = Vec::new();
        let n = self.config.quotes.len();
        let mut i: usize = 0;
        while i < n
            invariant
                i <= n,
                n == self@.quotes.len(),
                indices@.len() == i,
                forall|k: int| 0 <= k < i ==> indices@[k] == k,
            decreases n - i,
        {
            indices.push(i);
            i = i + 1;
        }
        let choice = choose_index(&indices);
        self.quote_reply(choice)
    }

    /// Adds `quote` under `quote_name`, unless that name is taken.
    pub fn quote_new(&mut self, quote_name: String, quote: String) -> (r: Option<String>)
        requires
            old(self).wf(),
        ensures
            final(self).commands == old(self).commands,
            final(self).wf(),
            r matches Some(x) && (final(self)@, x@) == new_spec(old(self)@, quote_name@, quote@),
    {
        if self.config.quotes.contains_key(quote_name.as_str()) {
            let mut r = concat_text("A quote with the name ", quote_name.as_str());
            r.append(" already exists");
            Some(r)
        } else {
            let mut r = concat_text("Added new quote ", quote_name.as_str());
            r.append(": ");
            r.append(quote.as_str());
            self.config.quotes.insert(quote_name, quote);
            self.config_changed = true;
            Some(r)
        }
    }

    /// Removes the quote named `quote_name`.
    pub fn quote_remove(&mut self, quote_name: &str) -> (r: Option<String>)
        requires
            old(self).wf(),
        ensures
            final(self).commands == old(self).commands,
            final(self).wf(),
            r matches Some(x) && (final(self)@, x@) == remove_spec(old(self)@, quote_name@),
    {
        match self.config.quotes.remove(quote_name) {
            Some(quote) => {
                self.config_changed = true;
                let mut r = concat_text("Deleted quote ", debug_text(quote_name).as_str());
                r.append(": ");
                r.append(quote.as_str());
                Some(r)
            },
            None => Some(unknown(quote_name)),
        }
    }

    /// Replaces the quote named `quote_name`.
    pub fn quote_edit(&mut self, quote_name: &str, new_quote: String) -> (r: Option<String>)
        requires
            old(self).wf(),
        ensures
            final(self).commands == old(self).commands,
            final(self).wf(),
            r matches Some(x) && (final(self)@, x@) == edit_spec(old(self)@, quote_name@, new_quote@),
    {
        match self.config.quotes.get(quote_name) {
            Some(old_quote) => {
                let mut r = concat_text("Edited quote ", quote_name);
                r.append(": ");
                r.append(old_quote.as_str());
                r.append(". New quote: ");
                r.append(new_quote.as_str());
                self.config.quotes.insert(quote_name.to_owned(), new_quote);
                self.config_changed = true;
                Some(r)
            },
            None => Some(unknown(quote_name)),
        }
    }

    /// The quote named `quote_name`.
    pub fn quote_get(&self, quote_name: &str) -> (r: Option<String>)
        ensures
            r matches Some(x) && x@ == get_spec(self@, quote_name@),
    {
        match self.config.quotes.get(quote_name) {
            Some(quote) => Some(quote),
            None => Some(unknown(quote_name)),
        }
    }

    /// Gives the quote named `quote_name` the name `new_name`, unless that
    /// name is taken.
    pub fn quote_rename(&mut self, quote_name: &str, new_name: String) -> (r: Option<String>)
        requires
            old(self).wf(),
        ensures
            final(self).commands == old(self).commands,
            final(self).wf(),
            r matches Some(x) && (final(self)@, x@) == rename_spec(old(self)@, quote_name@, new_name@),
    {
        if self.config.quotes.contains_key(new_name.as_str()) {
            let mut r = concat_text("A quote with name ", new_name.as_str());
            r.append(" already exists");
            return Some(r);
        }
        proof {
            lemma_key_index(self@.quotes, quote_name@, 0);
        }
        match self.config.quotes.remove(quote_name) {
            Some(quote) => {
                let mut r = concat_text("Changed quote's name from ", quote_name);
                r.append(" to ");
                r.append(new_name.as_str());
                self.config.quotes.insert(new_name, quote);
                self.config_changed = true;
                Some(r)
            },
            None => {
                let mut r = concat_text("No quote with name ", quote_name);
                r.append(" found");
                Some(r)
            },
        }
    }

    /// What the bot shows of its state.
    pub fn serialize(&self) -> (r: QuoteSerialized)
        ensures
            r.config.quotes@ == self.config.quotes@,
    {
        QuoteSerialized { config: QuoteConfig { quotes: self.config.quotes.copy() } }
    }

    /// The bot's command tree.
    pub fn commands() -> (r: BotCommands<QuoteCommand>)
        ensures
            r.commands@.len() == 1,
            is_literal(r.commands@[0], "!quote"@, 8),
            runs(child(r.commands@[0], 0), AuthorityLevel::Viewer, QuoteCommand::Random),
            is_literal(child(r.commands@[0], 1), "new"@, 1),
            word_line_runs(child(child(r.commands@[0], 1), 0), AuthorityLevel::Moderator, QuoteCommand::New),
            is_literal(child(r.commands@[0], 2), "add"@, 1),
            word_line_runs(child(child(r.commands@[0], 2), 0), AuthorityLevel::Moderator, QuoteCommand::New),
            is_literal(child(r.commands@[0], 3), "delete"@, 1),
            word_runs(child(child(r.commands@[0], 3), 0), AuthorityLevel::Moderator, QuoteCommand::Remove),
            is_literal(child(r.commands@[0], 4), "remove"@, 1),
            word_runs(child(child(r.commands@[0], 4), 0), AuthorityLevel::Moderator, QuoteCommand::Remove),
            is_literal(child(r.commands@[0], 5), "edit"@, 1),
            word_line_runs(child(child(r.commands@[0], 5), 0), AuthorityLevel::Moderator, QuoteCommand::Edit),
            is_literal(child(r.commands@[0], 6), "rename"@, 1),
            two_words_run(child(child(r.commands@[0], 6), 0), AuthorityLevel::Moderator, QuoteCommand::Rename),
            word_line_runs(child(r.commands@[0], 7), AuthorityLevel::Viewer, QuoteCommand::Get),
    {
        let v = AuthorityLevel::Viewer;
        let m = AuthorityLevel::Moderator;
        let root = literal_node(
            "!quote",
            vec![
                final_node(v, QuoteCommand::Random),
                literal_node("new", vec![word_node(line_node(final_node(m, QuoteCommand::New)))]),
                literal_node("add", vec![word_node(line_node(final_node(m, QuoteCommand::New)))]),
                literal_node("delete", vec![word_node(final_node(m, QuoteCommand::Remove))]),
                literal_node("remove", vec![word_node(final_node(m, QuoteCommand::Remove))]),
                literal_node("edit", vec![word_node(line_node(final_node(m, QuoteCommand::Edit)))]),
                literal_node("rename", vec![word_node(word_node(final_node(m, QuoteCommand::Rename)))]),
                word_node(line_node(final_node(v, QuoteCommand::Get))),
            ],
        );
        BotCommands { commands: vec![root] }
    }

    /// Runs `command` with `args`, as the command tree found it in a
    /// message; a random quote is picked as `quote_random` picks it.
    pub fn perform(&mut self, command: QuoteCommand, args: &Vec<String>) -> (r: Option<String>)
        requires
            old(self).wf(),
            args@.len() >= quote_arity(command),
        ensures
            final(self).commands == old(self).commands,
            final(self).wf(),
            match command {
                QuoteCommand::Random => final(self)@ == old(self)@ && exists|c: Option<int>|
                    valid_choice(old(self)@.quotes.len(), c) && reply_is(
                        r,
                        #[trigger] random_reply(old(self)@.quotes, c),
                    ),
                QuoteCommand::New => r matches Some(x) && (final(self)@, x@) == new_spec(
                    old(self)@,
                    args@[0]@,
                    args@[1]@,
                ),
                QuoteCommand::Remove => r matches Some(x) && (final(self)@, x@) == remove_spec(
                    old(self)@,
                    args@[0]@,
                ),
                QuoteCommand::Edit => r matches Some(x) && (final(self)@, x@) == edit_spec(
                    old(self)@,
                    args@[0]@,
                    args@[1]@,
                ),
                QuoteCommand::Rename => r matches Some(x) && (final(self)@, x@) == rename_spec(
                    old(self)@,
                    args@[0]@,
                    args@[1]@,
                ),
                QuoteCommand::Get => final(self)@ == old(self)@ && reply_is(r, get_spec(old(self)@, args@[0]@)),
            },
    {
        match command {
            QuoteCommand::Random => self.quote_random(),
            QuoteCommand::New => self.quote_new(args[0].clone(), args[1].clone()),
            QuoteCommand::Remove => self.quote_remove(args[0].as_str()),
            QuoteCommand::Edit => self.quote_edit(args[0].as_str(), args[1].clone()),
            QuoteCommand::Rename => self.quote_rename(args[0].as_str(), args[1].clone()),
            QuoteCommand::Get => self.quote_get(args[0].as_str()),
        }
    }
}

/// The reply to a name that has no quote.
fn unknown(name: &str) -> (r: String)
    ensures
        r@ == unknown_reply(name@),
{
    let mut r = concat_text("I don't know any quote named ", name);
    r.append(". Try creating one with !quote new <quote_name> <quote>");
    r
}

} // verus!
