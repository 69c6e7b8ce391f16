use nertsal_bot::channels::{ChannelsBot, ChannelsCommand};
use nertsal_bot::commands::CommandMessage;
use nertsal_bot::completion::{CommandCompleter, CompletionNode};
use nertsal_bot::registry::BotAction;

fn strings(v: &[&str]) -> Vec<String> {
    v.iter().map(|s| s.to_string()).collect()
}

fn some(s: &str) -> Option<String> {
    Some(s.to_owned())
}

fn started(actions: &[BotAction]) -> Vec<String> {
    actions
        .iter()
        .map(|a| match a {
            BotAction::Start(n) => format!("start {}", n),
            BotAction::Stop(n) => format!("stop {}", n),
        })
        .collect()
}

#[test]
fn channels_bot_starts_the_available_active_bots() {
    let (bot, actions) = ChannelsBot::new(strings(&["QuoteBot", "VoteBot"]), &strings(&["VoteBot", "Nope", "VoteBot"]));
    assert_eq!(bot.active, strings(&["VoteBot"]));
    assert_eq!(started(&actions), strings(&["start VoteBot"]));
    assert!(bot.active_changed);
    let (bot, actions) = ChannelsBot::new(strings(&["QuoteBot"]), &vec![]);
    assert!(bot.active.is_empty() && actions.is_empty() && !bot.active_changed);
    assert_eq!(ChannelsBot::name(), "ChannelsBot");
}

#[test]
fn channels_bot_spawn_disable_reset() {
    let (mut bot, _) = ChannelsBot::new(strings(&["QuoteBot", "VoteBot"]), &vec![]);
    let (reply, actions) = bot.spawn_bot("QuoteBot");
    assert_eq!(reply, some("QuoteBot is now active"));
    assert_eq!(started(&actions), strings(&["start QuoteBot"]));
    assert_eq!(bot.spawn_bot("QuoteBot").0, some("QuoteBot is already active"));
    assert_eq!(bot.spawn_bot("Nope").0, None);
    let (reply, actions) = bot.reset_bot("QuoteBot");
    assert_eq!(reply, some("QuoteBot is reset"));
    assert_eq!(started(&actions), strings(&["stop QuoteBot", "start QuoteBot"]));
    assert_eq!(bot.disable_bot("QuoteBot").0, some("QuoteBot is no longer active"));
    assert_eq!(bot.disable_bot("QuoteBot").0, None);
    assert_eq!(bot.reset_bot("Nope").0, None);
    assert!(bot.active_bots().is_empty());
}

#[test]
fn channels_bot_reset_all_restarts_each_bot() {
    let (mut bot, _) = ChannelsBot::new(strings(&["QuoteBot", "VoteBot"]), &strings(&["QuoteBot", "VoteBot"]));
    let (reply, actions) = bot.reset_all();
    assert_eq!(reply, some("All active bots reset"));
    assert_eq!(
        started(&actions),
        strings(&["stop QuoteBot", "start QuoteBot", "stop VoteBot", "start VoteBot"])
    );
    assert_eq!(bot.active_bots(), strings(&["QuoteBot", "VoteBot"]));
}

#[test]
fn channels_bot_commands() {
    let (mut bot, _) = ChannelsBot::new(strings(&["QuoteBot", "VoteBot"]), &vec![]);
    let message = CommandMessage {
        sender_name: "m".to_owned(),
        message_text: "!enable VoteBot".to_owned(),
        badges: strings(&["moderator"]),
    };
    let found = bot.commands.find_commands(&message);
    assert_eq!(found.len(), 1);
    assert_eq!(found[0].0, ChannelsCommand::Enable(1));
    assert!(found[0].1.is_empty());
    let (reply, _) = bot.perform(found[0].0);
    assert_eq!(reply, some("VoteBot is now active"));
    let unknown = CommandMessage {
        sender_name: "m".to_owned(),
        message_text: "!enable Other".to_owned(),
        badges: strings(&["moderator"]),
    };
    assert!(bot.commands.find_commands(&unknown).is_empty());
    assert_eq!(bot.perform(ChannelsCommand::Reset(1)).0, some("VoteBot is reset"));
    assert_eq!(bot.perform(ChannelsCommand::Disable(0)).0, None);
    assert_eq!(bot.active, strings(&["VoteBot"]));
    assert_eq!(bot.perform(ChannelsCommand::Shutdown).0, some("Shutting down..."));
    assert!(bot.queue_shutdown);
}

#[test]
fn channels_bot_completes_bot_names() {
    let (bot, _) = ChannelsBot::new(strings(&["QuoteBot", "VoteBot"]), &vec![]);
    let completer = CommandCompleter { completion_tree: CompletionNode::from_commands(&bot.commands.commands) };
    assert_eq!(completer.complete("!enable V"), strings(&["VoteBot"]));
    assert_eq!(completer.complete("!reset "), strings(&["QuoteBot", "VoteBot"]));
}
