use nertsal_bot::classic::{GameJamBot, GameJamConfig, RaffleMode};
use nertsal_bot::classic_commands::ClassicCommand;
use nertsal_bot::commands::CommandMessage;
use nertsal_bot::gamejam::submission::GameType;

const A: &str = "https://itch.io/game-a";
const B: &str = "https://itch.io/game-b";
const C: &str = "https://itch.io/game-c";

fn config(limit: Option<u64>) -> GameJamConfig {
    GameJamConfig {
        queue_mode: true,
        enable_queue_command: true,
        response_time_limit: limit,
        link_start: Some("https://itch.io/".to_owned()),
        allow_direct_link_submit: true,
        raffle_default_weight: 1,
        sheet_id: None,
    }
}

fn some(s: &str) -> Option<String> {
    Some(s.to_owned())
}

fn strings(v: &[&str]) -> Vec<String> {
    v.iter().map(|s| s.to_string()).collect()
}

fn bot_with(games: &[(&str, &str)]) -> GameJamBot {
    let mut bot = GameJamBot::new(config(None));
    for (author, link) in games {
        assert_eq!(
            bot.submit(link.to_string(), author.to_string()),
            Some(format!("@{}, your game has been submitted!", author))
        );
    }
    bot
}

fn current_author(bot: &GameJamBot) -> Option<String> {
    bot.games_state.current_game.as_ref().map(|g| g.author.clone())
}

#[test]
fn classic_submitting_rules() {
    let mut bot = bot_with(&[("alice", A)]);
    assert!(bot.update_sheets);
    assert_eq!(bot.submit(A.to_owned(), "bob".to_owned()), some("@bob, that game has already been submitted."));
    assert_eq!(bot.submit("http://elsewhere/x".to_owned(), "carol".to_owned()), some("@carol, that link can not be submitted"));
    assert!(!bot.check_link("http://elsewhere/x"));
    assert!(bot.check_link(B));
    bot.next(None, false);
    assert_eq!(bot.submit(A.to_owned(), "bob".to_owned()), some("@bob, we are playing that game right now!"));
    bot.skip(false);
    assert_eq!(
        bot.submit(A.to_owned(), "bob".to_owned()),
        some("@bob, your game was skipped. You may return to the queue using !return command")
    );
    assert_eq!(bot.set_open(false), some("The queue is now closed"));
    assert_eq!(
        bot.submit(C.to_owned(), "carol".to_owned()),
        some("The queue is closed. You can not submit your game at the moment.")
    );
    assert_eq!(bot.games_state.games_queue.len(), 0);
    assert_eq!(bot.set_open(true), some("The queue is now open"));
}

#[test]
fn classic_queue_order_and_played_games() {
    let mut bot = bot_with(&[("alice", A), ("bob", B)]);
    assert_eq!(bot.next(None, true), Some(format!("Now playing {} from @alice. ", A)));
    assert_eq!(bot.skip(false), some("Game has been skipped."));
    assert_eq!(current_author(&bot), None);
    assert_eq!(bot.return_game("alice"), some("@alice, your game was returned to the front of the queue"));
    assert_eq!(bot.return_game("alice"), None);
    assert_eq!(
        bot.queue("bob"),
        Some(format!("@bob, your game is 2 in the queue. Queued games: 1) {} from alice. 2) {} from bob. ", A, B))
    );
    assert_eq!(bot.next(None, false), Some(format!("Now playing {} from @alice. ", A)));
    assert_eq!(bot.next(None, false), Some(format!("Now playing {} from @bob. ", B)));
    assert_eq!(bot.played_games.len(), 1);
    assert!(bot.played_games_changed);
    assert_eq!(bot.next(None, false), some("The queue is empty. !submit <your game>. "));
    assert_eq!(current_author(&bot), None);
    let played: Vec<String> = bot.played_games.iter().map(|g| g.name.clone()).collect();
    assert_eq!(played, strings(&[A, B]));
    assert_eq!(bot.submit(A.to_owned(), "zed".to_owned()), some("@zed, we have already played that game."));
}

#[test]
fn classic_queue_listing() {
    let mut bot = bot_with(&[("a", "https://itch.io/1"), ("b", "https://itch.io/2"), ("c", "https://itch.io/3"), ("d", "https://itch.io/4"), ("e", "https://itch.io/5")]);
    assert_eq!(
        bot.queue("zed"),
        some("Queued games: 1) https://itch.io/1 from a. 2) https://itch.io/2 from b. 3) https://itch.io/3 from c. And 2 more")
    );
    bot.next(Some("c"), false);
    assert_eq!(
        bot.queue("c"),
        some("@c, we are currently playing your game. Queued games: 1) https://itch.io/1 from a. 2) https://itch.io/2 from b. 3) https://itch.io/4 from d. And 1 more")
    );
    bot.games_state.games_queue.clear();
    assert_eq!(bot.queue("x"), some("The queue is empty"));
    bot.config.enable_queue_command = false;
    assert_eq!(bot.queue("x"), None);
}

#[test]
fn classic_unskip_restores_skipped_game() {
    let mut bot = bot_with(&[("alice", A), ("bob", B)]);
    assert_eq!(bot.unskip(), some("No game has been skipped yet"));
    bot.next(None, false);
    bot.skip(false);
    bot.next(None, false);
    assert_eq!(
        bot.unskip(),
        Some(format!("Current game has been put at the front of the queue. Now playing {} from @alice. ", A))
    );
    assert_eq!(current_author(&bot), some("alice"));
    assert_eq!(bot.games_state.returned_queue[0].author, "bob");
    assert!(bot.games_state.skipped.is_empty());
}

#[test]
fn classic_cancel_and_next_by_author() {
    let mut bot = bot_with(&[("alice", A), ("bob", B)]);
    assert_eq!(bot.cancel("alice"), some("alice's game has been remove from the queue"));
    assert_eq!(bot.cancel("zed"), some("Couldn't find a game from zed"));
    assert_eq!(bot.next(Some("zed"), false), some("Couldn't find a game from zed"));
    assert_eq!(bot.next(Some("bob"), false), Some(format!("Now playing {} from @bob. ", B)));
    assert_eq!(bot.current(), Some(format!("Current game is: {} from bob", B)));
    assert_eq!(bot.stop(), some("Current game set to None"));
    assert_eq!(bot.current(), some("Not playing any game at the moment"));
    assert_eq!(bot.skip(true), some("Not playing any game at the moment."));
}

#[test]
fn classic_waiting_for_the_author() {
    let mut bot = GameJamBot::new(config(Some(30)));
    bot.submit(A.to_owned(), "alice".to_owned());
    bot.submit(B.to_owned(), "bob".to_owned());
    assert_eq!(bot.next(None, true), some("@alice, we are about to play your game. Please reply in 30 seconds."));
    assert!(bot.waiting);
    assert_eq!(bot.check_message("bob"), None);
    assert_eq!(bot.update(10), None);
    assert_eq!(bot.check_message("alice"), Some(format!("Now playing {} from @alice. ", A)));
    assert!(!bot.waiting);
    assert_eq!(bot.force(), some("Not waiting for response at the moment"));
    assert_eq!(bot.next(None, true), some("@bob, we are about to play your game. Please reply in 30 seconds."));
    assert_eq!(bot.force(), Some(format!("Now playing {} from @bob", B)));
    bot.submit(C.to_owned(), "carol".to_owned());
    bot.next(None, true);
    assert_eq!(bot.update(30), some("The queue is empty. !submit <your game>. "));
    assert_eq!(bot.games_state.skipped.len(), 1);
    assert_eq!(bot.games_state.skipped[0].author, "carol");
}

#[test]
fn classic_raffle() {
    let mut bot = bot_with(&[("alice", A), ("bob", B)]);
    assert_eq!(bot.raffle_finish_with(None), some("The raffle should be started first: !raffle"));
    assert_eq!(bot.raffle_start(), some("The raffle has started! Type !join to join the raffle."));
    assert_eq!(bot.raffle_join("alice".to_owned()), None);
    assert_eq!(bot.raffle_join("carol".to_owned()), None);
    assert!(bot.raffle_ready());
    assert_eq!(bot.raffle_finish_with(Some(0)), Some(format!("Now playing {} from @alice. ", A)));
    assert_eq!(bot.games_state.raffle.viewers_weight.get("alice"), None);
    assert_eq!(bot.games_state.raffle.viewers_weight.get("carol"), Some(2));
    assert!(matches!(bot.games_state.raffle.mode, RaffleMode::Inactive));
    bot.raffle_start();
    bot.raffle_join("carol".to_owned());
    assert_eq!(bot.raffle_finish_with(Some(0)), some("carol has won the raffle!"));
    assert_eq!(bot.games_state.raffle.viewers_weight.get("carol"), None);
    bot.raffle_start();
    assert_eq!(bot.raffle_undo(), some("Raffle is now inactive"));
    bot.raffle_start();
    assert_eq!(bot.raffle_finish_with(None), some("Error trying to finish the raffle"));
    bot.raffle_start();
    bot.raffle_join("dave".to_owned());
    assert_eq!(bot.raffle_finish(), some("dave has won the raffle!"));
    bot.raffle_join("erin".to_owned());
    assert_eq!(bot.games_state.raffle.viewers_weight.get("erin"), Some(1));
}

#[test]
fn classic_sheet_rows() {
    let mut bot = bot_with(&[("alice", A), ("bob", B), ("carol", C)]);
    bot.next(None, false);
    bot.skip(false);
    bot.next(None, false);
    let rows = bot.sheet_rows();
    let cells: Vec<Vec<String>> = rows.iter().map(|r| r.values.clone()).collect();
    assert_eq!(cells[0], strings(&["Game link", "Author"]));
    assert_eq!(cells[1], strings(&[B, "bob"]));
    assert_eq!(cells[2], strings(&[C, "carol"]));
    assert_eq!(cells[3], strings(&[A, "alice"]));
    assert_eq!(rows.len(), 4);
    assert_eq!(rows[0].kind, None);
    assert_eq!(rows[1].kind, Some(GameType::Current));
    assert_eq!(rows[2].kind, Some(GameType::Queued));
    assert_eq!(rows[3].kind, Some(GameType::Skipped));
}

fn message(text: &str, badges: &[&str]) -> CommandMessage {
    CommandMessage { sender_name: "x".to_owned(), message_text: text.to_owned(), badges: strings(badges) }
}

#[test]
fn classic_command_tree() {
    let commands = GameJamBot::commands();
    assert_eq!(commands.commands.len(), 16);
    let found = commands.find_commands(&message("!next alice", &["broadcaster"]));
    assert!(found.iter().any(|(c, a)| *c == ClassicCommand::NextAuthor && *a == strings(&["alice"])));
    let found = commands.find_commands(&message("!next", &[]));
    assert!(!found.iter().any(|(c, _)| *c == ClassicCommand::NextQueued));
    assert!(found.iter().any(|(c, _)| *c == ClassicCommand::DirectSubmit));
    let found = commands.find_commands(&message("!raffle cancel", &["broadcaster"]));
    assert!(found.iter().any(|(c, _)| *c == ClassicCommand::RaffleCancel));
    let found = commands.find_commands(&message("!skip all", &["broadcaster"]));
    assert!(found.iter().any(|(c, _)| *c == ClassicCommand::SkipAll));
    let found = commands.find_commands(&message("!clear", &["moderator"]));
    assert!(found.iter().any(|(c, _)| *c == ClassicCommand::Clear));
    assert_eq!(ClassicCommand::Submit.args_needed(), 1);
    assert_eq!(ClassicCommand::Join.args_needed(), 0);
}

#[test]
fn classic_commands_run_through_perform() {
    let mut bot = GameJamBot::new(config(None));
    assert_eq!(bot.perform(ClassicCommand::DirectSubmit, "alice", &strings(&[A])), some("@alice, your game has been submitted!"));
    assert_eq!(bot.perform(ClassicCommand::DirectSubmit, "bob", &strings(&["hello"])), None);
    assert_eq!(bot.perform(ClassicCommand::Submit, "bob", &strings(&[B])), some("@bob, your game has been submitted!"));
    assert_eq!(bot.perform(ClassicCommand::Clear, "m", &vec![]), some("The queue has been cleared"));
    assert!(bot.games_state.games_queue.is_empty());
    bot.perform(ClassicCommand::Submit, "alice", &strings(&[A]));
    assert_eq!(bot.perform(ClassicCommand::NextQueued, "s", &vec![]), Some(format!("Now playing {} from @alice. ", A)));
    assert_eq!(bot.perform(ClassicCommand::Current, "x", &vec![]), Some(format!("Current game is: {} from alice", A)));
    assert_eq!(bot.perform(ClassicCommand::Close, "m", &vec![]), some("The queue is now closed"));
    assert_eq!(bot.perform(ClassicCommand::Open, "m", &vec![]), some("The queue is now open"));
    assert_eq!(bot.perform(ClassicCommand::Stop, "m", &vec![]), some("Current game set to None"));
    assert_eq!(bot.perform(ClassicCommand::RaffleStart, "s", &vec![]), some("The raffle has started! Type !join to join the raffle."));
    assert_eq!(bot.perform(ClassicCommand::Join, "zed", &vec![]), None);
    assert_eq!(bot.perform(ClassicCommand::RaffleFinish, "s", &vec![]), some("zed has won the raffle!"));
    assert_eq!(bot.perform(ClassicCommand::Force, "m", &vec![]), some("Not waiting for response at the moment"));
}

#[test]
fn classic_new_bot_and_state_check() {
    let mut bot = GameJamBot::new(config(None));
    assert!(bot.games_state.is_open);
    assert!(bot.check_state());
    bot.waiting = true;
    assert!(!bot.check_state());
    bot.waiting = false;
    bot.games_state.raffle.viewers_weight.insert("a".to_owned(), 1);
    assert!(bot.check_state());
}

#[test]
fn classic_skip_all_moves_the_queue() {
    let mut bot = bot_with(&[("alice", A), ("bob", B)]);
    bot.next(None, false);
    bot.skip(false);
    bot.return_game("alice");
    bot.submit(C.to_owned(), "carol".to_owned());
    assert_eq!(
        bot.perform(ClassicCommand::SkipAll, "s", &vec![]),
        some("All games from the queue are moved to the skipped list.")
    );
    let skipped: Vec<String> = bot.games_state.skipped.iter().map(|g| g.author.clone()).collect();
    assert_eq!(skipped, strings(&["alice", "bob", "carol"]));
    assert!(bot.games_state.queue().is_empty());
    assert_eq!(bot.perform(ClassicCommand::RaffleCancel, "s", &vec![]), some("Raffle is now inactive"));
}
