//! Flat `!command` lists: a message that starts with `!` runs the first
//! command whose name begins it and whose rights the sender's badges meet.

use vstd::prelude::*;
use crate::text::{has_prefix, starts_with, str_eq, trim, trim_seq};
use vstd::string::StrSliceExecFns;

verus! {

/// Who may run a command.
#[derive(Clone, Copy, PartialEq, Eq, Debug, Structural)]
pub enum AuthorityLevel {
    Broadcaster,
    Moderator,
    Any,
}

/// A chat message as the flat command list reads it.
pub struct ChatMessage {
    pub message_text: String,
    /// The names of the sender's chat badges.
    pub badges: Vec<String>,
}

/// A named command; `C` identifies what it runs.
pub struct BotCommand<C> {
    pub name: String,
    pub authority_level: AuthorityLevel,
    pub command: C,
}

/// The commands of a bot.
pub struct BotCommands<C> {
    pub commands: Vec<BotCommand<C>>,
}

/// Whether one of `badges` is named in `names`.
pub open spec fn has_badge(names: Seq<Seq<char>>, badges: Seq<Seq<char>>) -> bool {
    exists|i: int, j: int|
        0 <= i < badges.len() && 0 <= j < names.len() && #[trigger] badges[i] == #[trigger] names[j]
}

/// Whether a sender with `badges` may run a command that needs `level`.
pub open spec fn allowed(level: AuthorityLevel, badges: Seq<Seq<char>>) -> bool {
    match level {
        AuthorityLevel::Any => true,
        AuthorityLevel::Broadcaster => has_badge(seq!["broadcaster"@], badges),
        AuthorityLevel::Moderator => has_badge(seq!["broadcaster"@, "moderator"@], badges),
    }
}

/// Rights only grow with rank: a sender who may run a broadcaster's command
/// may run a moderator's, one who may run a moderator's may run any; the
/// moderator badge gives a moderator's rights and the broadcaster badge a
/// broadcaster's.
pub proof fn law_simple_authority_monotone(badges: Seq<Seq<char>>)
    ensures
        allowed(AuthorityLevel::Broadcaster, badges) ==> allowed(AuthorityLevel::Moderator, badges),
        allowed(AuthorityLevel::Moderator, badges) ==> allowed(AuthorityLevel::Any, badges),
        badges.contains("broadcaster"@) ==> allowed(AuthorityLevel::Broadcaster, badges),
        badges.contains("moderator"@) ==> allowed(AuthorityLevel::Moderator, badges),
{
    let b = seq!["broadcaster"@];
    let m = seq!["broadcaster"@, "moderator"@];
    if allowed(AuthorityLevel::Broadcaster, badges) {
        let (i, j) = choose|i: int, j: int| 0 <= i < badges.len() && 0 <= j < b.len() && #[trigger] badges[i]
            == #[trigger] b[j];
        assert(badges[i] == m[0]);
    }
    if badges.contains("broadcaster"@) {
        let i = choose|i: int| 0 <= i < badges.len() && badges[i] == "broadcaster"@;
        assert(badges[i] == b[0]);
    }
    if badges.contains("moderator"@) {
        let i = choose|i: int| 0 <= i < badges.len() && badges[i] == "moderator"@;
        assert(badges[i] == m[1]);
    }
}

/// The index of the first command from the `i`-th on whose name begins
/// `text` and that the sender may run.
pub open spec fn first_command<C>(
    cmds: Seq<BotCommand<C>>,
    text: Seq<char>,
    badges: Seq<Seq<char>>,
    i: int,
) -> Option<int>
    decreases cmds.len() - i,
{
    if 0 <= i < cmds.len() {
        if has_prefix(text, cmds[i].name@) && allowed(cmds[i].authority_level, badges) {
            Some(i)
        } else {
            first_command(cmds, text, badges, i + 1)
        }
    } else {
        None
    }
}

/// The command that `first_command` picks is in range, begins `text` and
/// may be run by the sender.
pub proof fn lemma_first_command<C>(
    cmds: Seq<BotCommand<C>>,
    text: Seq<char>,
    badges: Seq<Seq<char>>,
    i: int,
)
    requires
        0 <= i,
    ensures
        first_command(cmds, text, badges, i) matches Some(j) ==> {
            &&& i <= j < cmds.len()
            &&& has_prefix(text, cmds[j].name@)
            &&& allowed(cmds[j].authority_level, badges)
        },
    decreases cmds.len() - i,
{
    if 0 <= i < cmds.len() && !(has_prefix(text, cmds[i].name@) && allowed(
        cmds[i].authority_level,
        badges,
    )) {
        lemma_first_command(cmds, text, badges, i + 1);
    }
}

/// Whether one of the sender's badges is named in `badges`.
pub fn check_badges(badges: Vec<&str>, message: &ChatMessage) -> (b: bool)
    ensures
        b == has_badge(badges.deep_view(), message.badges.deep_view()),
{
    let mut i: usize = 0;
    while i < message.badges.len()
        invariant
            i <= message.badges.len(),
            forall|k: int, j: int|
                0 <= k < i && 0 <= j < badges.len() ==> message.badges.deep_view()[k]
                    != badges.deep_view()[j],
        decreases message.badges.len() - i,
    {
        let mut j: usize = 0;
        while j < badges.len()
            invariant
                i < message.badges.len(),
                j <= badges.len(),
                forall|k: int, l: int|
                    0 <= k < i && 0 <= l < badges.len() ==> message.badges.deep_view()[k]
                        != badges.deep_view()[l],
                forall|l: int| 0 <= l < j ==> message.badges.deep_view()[i as int] != badges.deep_view()[l],
            decreases badges.len() - j,
        {
            if str_eq(message.badges[i].as_str(), badges[j]) {
                proof {
                    assert(message.badges.deep_view()[i as int] == badges.deep_view()[j as int]);
                }
                return true;
            }
            j = j + 1;
        }
        i = i + 1;
    }
    false
}

/// Whether the sender of `message` may run a command that needs
/// `authority_level`.
pub fn check_authority(authority_level: &AuthorityLevel, message: &ChatMessage) -> (b: bool)
    ensures
        b == allowed(*authority_level, message.badges.deep_view()),
{
    match authority_level {
        AuthorityLevel::Any => true,
        AuthorityLevel::Broadcaster => {
            let names = vec!["broadcaster"];
            proof {
                assert(names.deep_view() =~= seq!["broadcaster"@]);
            }
            check_badges(names, message)
        },
        AuthorityLevel::Moderator => {
            let names = vec!["broadcaster", "moderator"];
            proof {
                assert(names.deep_view() =~= seq!["broadcaster"@, "moderator"@]);
            }
            check_badges(names, message)
        },
    }
}

impl<C> BotCommands<C> {
    /// For a message that starts with `!`: the command it runs and the rest
    /// of the message after the command's name, trimmed.
    pub fn check_command(&self, message: &ChatMessage) -> (r: Option<(&BotCommand<C>, String)>)
        requires
            message.message_text@.len() > 0,
        ensures
            ({
                let text = message.message_text@;
                let rest = text.subrange(1, text.len() as int);
                if text[0] == '!' {
                    match first_command(self.commands@, rest, message.badges.deep_view(), 0) {
                        Some(i) => r matches Some((c, args)) && *c == self.commands@[i]
                            && args@ == trim_seq(
                            rest.subrange(self.commands@[i].name@.len() as int, rest.len() as int),
                        ),
                        None => r is None,
                    }
                } else {
                    r is None
                }
            }),
    {
        let text = message.message_text.as_str();
        let len = text.unicode_len();
        if text.get_char(0) != '!' {
            return None;
        }
        let rest = text.substring_char(1, len);
        match self.find(rest, message) {
            Some(command) => {
                proof {
                    lemma_first_command(self.commands@, rest@, message.badges.deep_view(), 0);
                }
                let name_len = command.name.as_str().unicode_len();
                let args = trim(rest.substring_char(name_len, len - 1));
                Some((command, args.to_owned()))
            },
            None => None,
        }
    }

    /// The first command whose name begins `command` and that the sender
    /// of `message` may run.
    pub fn find(&self, command: &str, message: &ChatMessage) -> (r: Option<&BotCommand<C>>)
        ensures
            match first_command(self.commands@, command@, message.badges.deep_view(), 0) {
                Some(i) => r matches Some(c) && *c == self.commands@[i],
                None => r is None,
            },
    {
        let mut i: usize = 0;
        while i < self.commands.len()
            invariant
                i <= self.commands@.len(),
                first_command(self.commands@, command@, message.badges.deep_view(), 0)
                    == first_command(self.commands@, command@, message.badges.deep_view(), i as int),
            decreases self.commands@.len() - i,
        {
            let com = &self.commands[i];
            if starts_with(command, com.name.as_str()) && check_authority(&com.authority_level, message) {
                return Some(com);
            }
            i = i + 1;
        }
        None
    }
}

} // verus!
