use nertsal_bot::classic;
use nertsal_bot::commands::{AuthorityLevel, CommandMessage};
use nertsal_bot::completion::{CommandCompleter, CompletionNode};
use nertsal_bot::commands::ArgumentType;
use nertsal_bot::custom::{CustomBot, CustomCommand, CustomConfig};
use nertsal_bot::ld::{Game, LDBot, LDConfig};
use nertsal_bot::quote::{QuoteBot, QuoteCommand, QuoteConfig};
use nertsal_bot::registry::{BotAction, MainBot, MainCommand};
use nertsal_bot::reply::{ReplyBot, Response};
use nertsal_bot::server::index;
use nertsal_bot::table::{LuckTable, TextTable};
use nertsal_bot::vote::{count_votes, less_text, VoteBot, VoteMode};

fn some(s: &str) -> Option<String> {
    Some(s.to_owned())
}

fn strings(v: &[&str]) -> Vec<String> {
    v.iter().map(|s| s.to_string()).collect()
}

fn quote_bot() -> QuoteBot {
    QuoteBot::new(QuoteConfig { quotes: TextTable::new() })
}

#[test]
fn quotes_add_get_edit_rename_remove() {
    let mut bot = quote_bot();
    assert_eq!(bot.quote_random(), some("No quotes yet. Add new ones with !quote add <quote>"));
    assert_eq!(bot.quote_new("hi".to_owned(), "hello there".to_owned()), some("Added new quote hi: hello there"));
    assert!(bot.config_changed);
    assert_eq!(bot.quote_new("hi".to_owned(), "again".to_owned()), some("A quote with the name hi already exists"));
    assert_eq!(bot.quote_get("hi"), some("hello there"));
    assert_eq!(bot.quote_random(), some("Quote hi: hello there"));
    assert_eq!(
        bot.quote_edit("hi", "general kenobi".to_owned()),
        some("Edited quote hi: hello there. New quote: general kenobi")
    );
    assert_eq!(bot.quote_get("hi"), some("general kenobi"));
    assert_eq!(bot.quote_rename("hi", "greeting".to_owned()), some("Changed quote's name from hi to greeting"));
    assert_eq!(
        bot.quote_get("hi"),
        some("I don't know any quote named hi. Try creating one with !quote new <quote_name> <quote>")
    );
    assert_eq!(bot.quote_rename("nope", "other".to_owned()), some("No quote with name nope found"));
    assert_eq!(bot.quote_rename("nope", "greeting".to_owned()), some("A quote with name greeting already exists"));
    assert_eq!(bot.quote_remove("greeting"), some("Deleted quote \"greeting\": general kenobi"));
    assert_eq!(bot.quote_remove("a\"b"), some("I don't know any quote named a\"b. Try creating one with !quote new <quote_name> <quote>"));
    bot.quote_new("a\"b".to_owned(), "q".to_owned());
    assert_eq!(bot.quote_remove("a\"b"), some("Deleted quote \"a\\\"b\": q"));
    assert_eq!(bot.serialize().config.quotes.len(), 0);
}

#[test]
fn random_quote_is_one_of_them() {
    let mut bot = quote_bot();
    bot.quote_new("a".to_owned(), "1".to_owned());
    bot.quote_new("b".to_owned(), "2".to_owned());
    for _ in 0..20 {
        let q = bot.quote_random().unwrap();
        assert!(q == "Quote a: 1" || q == "Quote b: 2");
    }
    assert_eq!(bot.quote_reply(Some(1)), some("Quote b: 2"));
}

fn message(text: &str, badges: &[&str]) -> CommandMessage {
    CommandMessage { sender_name: "x".to_owned(), message_text: text.to_owned(), badges: strings(badges) }
}

#[test]
fn quote_commands() {
    let mut bot = quote_bot();
    let found = bot.commands.find_commands(&message("!quote add hi hello you", &["moderator"]));
    assert_eq!(found.len(), 1);
    assert_eq!(found[0].0, QuoteCommand::New);
    assert_eq!(bot.perform(found[0].0, &found[0].1), some("Added new quote hi: hello you"));
    let found = bot.commands.find_commands(&message("!quote hi", &[]));
    assert_eq!(found[0].0, QuoteCommand::Get);
    assert_eq!(bot.perform(found[0].0, &found[0].1), some("hello you"));
    assert!(bot.commands.find_commands(&message("!quote add hi x", &[])).is_empty());
}

fn custom_bot() -> CustomBot {
    let mut table = TextTable::new();
    table.insert("!hello".to_owned(), "Hi!".to_owned());
    CustomBot::new(CustomConfig { commands: table })
}

#[test]
fn custom_commands() {
    let mut bot = custom_bot();
    assert_eq!(bot.called_commands("!hello"), strings(&["!hello"]));
    assert_eq!(bot.called_commands("!hello  "), strings(&["!hello"]));
    assert!(bot.called_commands("!hello there").is_empty());
    assert_eq!(bot.reply("!hello"), some("Hi!"));
    assert_eq!(bot.new_command(&strings(&["!game", "Jam game"])), some("Added new command !game: Jam game"));
    assert_eq!(bot.new_command(&strings(&["!game", "Other"])), None);
    assert_eq!(bot.new_command(&strings(&["!only"])), None);
    assert_eq!(
        bot.edit_command(&strings(&["!game", "New game"])),
        some("Edited command !game: Jam game. New command: New game")
    );
    assert_eq!(bot.edit_command(&strings(&["!nope", "x"])), None);
    assert_eq!(bot.called_commands("!game"), strings(&["!game", "!game"]));
    assert_eq!(bot.reply("!game"), some("New game"));
    assert_eq!(bot.perform(CustomCommand::Delete, &strings(&["!game"])), some("Deleted command !game: New game"));
    assert_eq!(bot.called_commands("!game"), strings(&["!game"]));
    assert_eq!(bot.delete_command("!game"), None);
    let found = bot.commands.find_commands(&message("!command new !x some text", &["moderator"]));
    assert_eq!(found[0].0, CustomCommand::New);
    assert_eq!(found[0].1, strings(&["!x", "some text"]));
    assert!(bot.config_changed);
    assert_eq!(bot.serialize().config.commands.len(), 1);
}

#[test]
fn voting() {
    let mut bot = VoteBot::new();
    assert_eq!(bot.vote_finish(), some("The voting should be started first: !vote start"));
    assert_eq!(bot.vote_start(), some("The voting has started. Type !vote <your vote>"));
    assert_eq!(bot.status, some("The voting is in progress"));
    assert_eq!(bot.vote_start(), some("The voting is in progress."));
    assert_eq!(bot.vote("ann".to_owned(), "Yes".to_owned()), None);
    bot.vote("bob".to_owned(), "no".to_owned());
    bot.vote("cid".to_owned(), "YES".to_owned());
    bot.vote("bob".to_owned(), "maybe".to_owned());
    match &bot.state.vote_mode {
        VoteMode::Active { votes } => assert_eq!(votes.get("bob"), some("maybe")),
        _ => panic!("vote not running"),
    }
    assert_eq!(
        bot.vote_finish(),
        some("The voting has finished with the total of 3 votes and 2 unique ones.")
    );
    assert_eq!(bot.status, some("[[\"maybe\",1],[\"yes\",2]]"));
    assert!(matches!(bot.state.vote_mode, VoteMode::Inactive));
    let found = bot.commands.find_commands(&message("!vote start", &["broadcaster"]));
    assert_eq!(found.len(), 1);
}

#[test]
fn counting_orders_answers() {
    let mut votes = TextTable::new();
    votes.insert("a".to_owned(), "b".to_owned());
    votes.insert("b".to_owned(), "a".to_owned());
    votes.insert("c".to_owned(), "é".to_owned());
    votes.insert("d".to_owned(), "b".to_owned());
    let counts = count_votes(&votes);
    assert_eq!(counts, vec![("a".to_owned(), 1), ("b".to_owned(), 2), ("é".to_owned(), 1)]);
    assert!(less_text("ab", "b"));
    assert!(less_text("a", "ab"));
    assert!(!less_text("b", "b"));
    assert_eq!(less_text("Z", "a"), "Z" < "a");
}

#[test]
fn main_bot_enables_and_disables() {
    let known = strings(&["QuoteBot", "VoteBot"]);
    let (mut bot, actions) = MainBot::new(known, &strings(&["VoteBot", "Unknown", "VoteBot"]));
    assert_eq!(bot.active, strings(&["VoteBot"]));
    assert_eq!(actions.len(), 1);
    let (r, a) = bot.enable("QuoteBot");
    assert_eq!(r, some("QuoteBot is now active"));
    assert!(matches!(&a[..], [BotAction::Start(n)] if n == "QuoteBot"));
    assert_eq!(bot.enable("QuoteBot").0, some("QuoteBot is already active"));
    assert_eq!(bot.enable("Nope").0, some("I don't know about Nope"));
    assert_eq!(bot.disable("VoteBot").0, some("VoteBot is now resting"));
    assert_eq!(bot.disable("VoteBot").0, some("VoteBot is already off"));
    assert_eq!(bot.disable("Nope").0, some("I don't know about Nope"));
    let (r, a) = bot.reset("QuoteBot");
    assert_eq!(r, some("QuoteBot is now active"));
    assert_eq!(a.len(), 2);
    bot.enable("VoteBot");
    let (r, a) = bot.reset_all();
    assert_eq!(r, some("QuoteBot is now active. VoteBot is now active. "));
    assert_eq!(a.len(), 4);
    assert_eq!(bot.active, strings(&["QuoteBot", "VoteBot"]));
    assert_eq!(bot.perform(MainCommand::Shutdown, &vec![]).0, some("Shutting down..."));
    assert!(bot.queue_shutdown);
    let found = bot.commands.find_commands(&message("!reset all", &["moderator"]));
    assert_eq!(found[0].0, MainCommand::Reset);
    assert_eq!(found[0].1, strings(&["all"]));
}

#[test]
fn reply_rules() {
    let bot = ReplyBot {
        responses: vec![Response {
            keywords: vec![strings(&["what", "how"]), strings(&["old", "age"])],
            response: "The streamer is 20 years old".to_owned(),
        }],
        channel_login: "chan".to_owned(),
    };
    assert_eq!(bot.check_response("how old are you"), some("The streamer is 20 years old"));
    assert_eq!(bot.check_response("what is your age?"), some("The streamer is 20 years old"));
    assert_eq!(bot.check_response("how are you"), None);
    assert_eq!(ReplyBot::name(), "ReplyBot");
}

#[test]
fn ludum_dare_bot_waits_for_the_author() {
    let mut bot = LDBot::new("chan", LDConfig { response_time_limit: Some(60), link_start: None, allow_direct_link_submit: false });
    assert_eq!(LDBot::name(), "LDBot");
    assert_eq!(bot.save_file, "config/ludum_dare/ld-nertsalbot.json");
    assert_eq!(bot.check_message("anyone"), None);
    bot.games_state.current_game = Some(Game { author: "ann".to_owned(), name: "Jam".to_owned() });
    bot.waiting = true;
    assert_eq!(bot.check_message("bob"), None);
    assert!(!bot.update(59));
    assert_eq!(bot.check_message("ann"), some("Now playing Jam from @ann. "));
    assert!(!bot.waiting);
    bot.waiting = true;
    assert!(bot.update(60));
    assert!(!bot.waiting);
    bot.games_state.returned_queue.push(Game { author: "r".to_owned(), name: "R".to_owned() });
    bot.games_state.games_queue.push(Game { author: "g".to_owned(), name: "G".to_owned() });
    let names: Vec<&str> = bot.games_state.queue().iter().map(|g| g.name.as_str()).collect();
    assert_eq!(names, vec!["R", "G"]);
}

#[test]
fn first_game_jam_state() {
    let state = classic::GamesState::new();
    assert!(state.is_open);
    assert!(state.queue().is_empty());
    assert!(matches!(state.raffle.mode, classic::RaffleMode::Inactive));
    assert_eq!(classic::Raffle::new().viewers_weight.len(), 0);
}

#[test]
fn tables() {
    let mut t = LuckTable::new();
    t.insert("a".to_owned(), 1);
    t.insert("b".to_owned(), 5);
    t.insert("a".to_owned(), 3);
    assert_eq!(t.get("a"), Some(3));
    assert_eq!(t.len(), 2);
    assert_eq!(t.get_or_insert("c".to_owned(), 9), 9);
    assert_eq!(t.get_or_insert("c".to_owned(), 1), 9);
    t.increment("b");
    assert_eq!(t.get("b"), Some(6));
    assert_eq!(t.remove("a"), Some(3));
    assert_eq!(t.get("a"), None);
    assert!(t.unique_keys());
    let e = t.entries();
    assert_eq!(e, vec![("b".to_owned(), 6), ("c".to_owned(), 9)]);
    let mut s = TextTable::new();
    s.insert("k".to_owned(), "v".to_owned());
    assert!(s.contains_key("k"));
    assert_eq!(s.entry(0), ("k".to_owned(), "v".to_owned()));
    assert_eq!(s.copy().get("k"), some("v"));
    assert_eq!(s.remove("k"), some("v"));
    assert_eq!(s.len(), 0);
}

#[test]
fn completion_offers_the_next_words() {
    let tree = vec![CompletionNode::Literal {
        literals: strings(&["!quote"]),
        child_nodes: vec![
            CompletionNode::Literal { literals: strings(&["add", "new"]), child_nodes: vec![CompletionNode::Final] },
            CompletionNode::ArgumentChoice {
                choices: strings(&["edit", "rename"]),
                child_nodes: vec![CompletionNode::Argument {
                    argument_type: ArgumentType::Word,
                    child_nodes: vec![CompletionNode::Literal { literals: strings(&["now"]), child_nodes: vec![] }],
                }],
            },
        ],
    }];
    let completer = CommandCompleter { completion_tree: tree };
    assert_eq!(completer.complete("!q"), strings(&["!quote"]));
    assert_eq!(completer.complete("!quote "), strings(&["add", "new", "edit", "rename"]));
    assert_eq!(completer.complete("!quote re"), strings(&["rename"]));
    assert_eq!(completer.complete("!quote edit x n"), strings(&["now"]));
    assert_eq!(completer.complete("!quote"), strings(&["add", "new", "edit", "rename"]));
    assert!(completer.complete("!other").is_empty());
}

#[test]
fn web_page_text() {
    assert_eq!(index(), "This is a twitch bot made by Nertsal (https://github.com/Nertsal/jambo)\n");
    assert_eq!(AuthorityLevel::Viewer.level(), 0);
}
