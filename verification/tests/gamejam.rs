use nertsal_bot::gamejam::bot::{GameJamConfig, GameJamState, GamejamBot, GoogleSheetConfig, ReturnMode};
use nertsal_bot::gamejam::commands::GamejamCommand;
use nertsal_bot::gamejam::queue::GamesQueue;
use nertsal_bot::gamejam::submission::{GameFilter, GameType, Submission};

const LINK_A: &str = "https://ldjam.com/events/ludum-dare/50/game-a";
const LINK_B: &str = "https://ldjam.com/events/ludum-dare/50/game-b";
const LINK_C: &str = "https://ldjam.com/events/ludum-dare/50/game-c";

fn config() -> GameJamConfig {
    GameJamConfig {
        multiple_submissions: false,
        queue_mode: true,
        return_mode: ReturnMode::Back,
        auto_return: false,
        response_time_limit: None,
        link_start: Some("https://ldjam.com/".to_owned()),
        allow_direct_link_submit: true,
        allow_multiple_authors_submit: false,
        raffle_default_weight: 1,
        google_sheet_config: None,
    }
}

fn some(s: &str) -> Option<String> {
    Some(s.to_owned())
}

fn bot_with_games() -> GamejamBot {
    let mut bot = GamejamBot::new(config());
    assert_eq!(bot.submit(LINK_A.to_owned(), "alice".to_owned()), some("@alice, your game has been submitted!"));
    assert_eq!(bot.submit(LINK_B.to_owned(), "bob".to_owned()), some("@bob, your game has been submitted!"));
    bot
}

fn game(author: &str, link: &str) -> Submission {
    Submission::new(vec![author.to_owned()], link.to_owned())
}

#[test]
fn name_from_ludum_dare_link() {
    assert_eq!(Submission::name_from_link(LINK_A), some("game-a"));
    assert_eq!(Submission::name_from_link("https://ldjam.com/events/ludum-dare/50/x/y"), some("x"));
    assert_eq!(Submission::name_from_link("https://ldjam.com/events/ludum-dare/50"), None);
    assert_eq!(Submission::name_from_link("https://itch.io/game"), None);
    let g = game("alice", LINK_A);
    assert_eq!(g.name(), "game-a");
    assert_eq!(g.to_string_name(true), "game-a from @alice");
    assert_eq!(g.to_string_link(false), format!("{} from alice", LINK_A));
}

#[test]
fn games_queue_is_first_in_first_out_with_returned_games_first() {
    let mut q = GamesQueue::new();
    q.queue_game(game("a", "1"));
    q.queue_game(game("b", "2"));
    q.return_game(game("c", "3"));
    q.return_game_front(game("d", "4"));
    let order: Vec<String> = q.get_queue().iter().map(|g| g.link.clone()).collect();
    assert_eq!(order, vec!["4", "3", "1", "2"]);
    assert_eq!(q.next().unwrap().link, "4");
    assert_eq!(q.remove_game(&GameFilter::Author("b".to_owned())).unwrap().link, "2");
    assert!(q.remove_game(&GameFilter::Author("zz".to_owned())).is_none());
    q.get_queue_mut(0).link = "changed".to_owned();
    let drained: Vec<String> = q.drain_all().iter().map(|g| g.link.clone()).collect();
    assert_eq!(drained, vec!["changed", "1"]);
    assert!(q.next().is_none());
}

#[test]
fn submitting_rules() {
    let mut bot = bot_with_games();
    assert_eq!(
        bot.submit("http://elsewhere".to_owned(), "carol".to_owned()),
        some("@carol, that link can not be submitted")
    );
    assert_eq!(
        bot.submit(LINK_C.to_owned(), "alice".to_owned()),
        some("@alice, you can not submit more than one game")
    );
    assert_eq!(
        bot.submit(LINK_A.to_owned(), "carol".to_owned()),
        some("@carol, that game has already been submitted.")
    );
    bot.state.is_queue_open = false;
    assert_eq!(
        bot.submit(LINK_C.to_owned(), "carol".to_owned()),
        some("The queue is closed. You can not submit your game at the moment.")
    );
    assert!(bot.update_sheets_queued);
    assert!(bot.check_state());
}

#[test]
fn another_author_joins_a_submitted_game() {
    let mut c = config();
    c.allow_multiple_authors_submit = true;
    let mut bot = GamejamBot::new(c);
    bot.submit(LINK_A.to_owned(), "alice".to_owned());
    assert_eq!(
        bot.submit(LINK_A.to_owned(), "bob".to_owned()),
        some("@bob, you have been marked as another author of this game")
    );
    let (g, t) = bot.find_game(&GameFilter::Author("bob".to_owned())).unwrap();
    assert_eq!(g.authors, vec!["alice".to_owned(), "bob".to_owned()]);
    assert_eq!(t, GameType::Queued);
    assert_eq!(bot.game_to_values(g), vec![LINK_A.to_owned(), "alice, bob".to_owned()]);
}

#[test]
fn next_plays_in_queue_order_and_retires_the_current_game() {
    let mut bot = bot_with_games();
    assert_eq!(bot.next(None, true), Some(format!("Now playing {} from @alice. ", LINK_A)));
    assert_eq!(bot.status, some("Playing game-a from @alice"));
    assert_eq!(bot.next(None, true), Some(format!("Now playing {} from @bob. ", LINK_B)));
    assert_eq!(bot.state.submissions.played_games.len(), 1);
    assert_eq!(bot.state.submissions.played_games[0].link, LINK_A);
    assert_eq!(bot.next(None, true), some("The queue is empty. !submit <your game>. "));
    assert_eq!(bot.state.submissions.played_games.len(), 2);
    assert!(matches!(bot.state.current_state, GameJamState::Idle));
    assert_eq!(bot.status, some("Not playing a game"));
}

#[test]
fn next_by_author() {
    let mut bot = bot_with_games();
    assert_eq!(bot.next(Some("bob"), false), Some(format!("Now playing {} from @bob. ", LINK_B)));
    assert_eq!(bot.next(Some("zed"), false), some("Couldn't find a game from zed"));
}

#[test]
fn waiting_for_the_author() {
    let mut c = config();
    c.response_time_limit = Some(30);
    let mut bot = GamejamBot::new(c);
    bot.submit(LINK_A.to_owned(), "alice".to_owned());
    bot.submit(LINK_B.to_owned(), "bob".to_owned());
    assert_eq!(bot.next(None, true), some("@alice, we are about to play your game. Please reply in 30 seconds."));
    assert_eq!(bot.status, some("Waiting for response from alice"));
    assert_eq!(bot.check_message("someone"), None);
    assert_eq!(bot.update(10_000), None);
    match &bot.state.current_state {
        GameJamState::Waiting { time_limit, .. } => assert_eq!(*time_limit, 20_000),
        _ => panic!("not waiting"),
    }
    assert_eq!(bot.check_message("alice"), Some(format!("Now playing {} from @alice. ", LINK_A)));
    assert!(matches!(bot.state.current_state, GameJamState::Playing { .. }));
    assert_eq!(bot.force(), some("Not waiting for response at the moment"));
    assert_eq!(bot.next(None, true), some("@bob, we are about to play your game. Please reply in 30 seconds."));
    assert_eq!(bot.update(30_000), some("The queue is empty. !submit <your game>. "));
    assert_eq!(bot.state.submissions.skipped.len(), 1);
    assert_eq!(bot.state.submissions.skipped[0].link, LINK_B);
}

#[test]
fn force_plays_the_awaited_game() {
    let mut c = config();
    c.response_time_limit = Some(5);
    let mut bot = GamejamBot::new(c);
    bot.submit(LINK_A.to_owned(), "alice".to_owned());
    bot.next(None, true);
    assert_eq!(bot.force(), Some(format!("Now playing {} from @alice. ", LINK_A)));
}

#[test]
fn skip_then_unskip_brings_the_game_back() {
    let mut bot = bot_with_games();
    bot.next(None, true);
    assert_eq!(bot.skip(false), some("Game has been skipped."));
    assert_eq!(bot.state.submissions.skipped.len(), 1);
    assert_eq!(bot.unskip(None), Some(format!("Now playing {} from @alice. ", LINK_A)));
    assert_eq!(bot.state.submissions.skipped.len(), 0);
    assert_eq!(bot.state.current_state.current().unwrap().link, LINK_A);
    assert_eq!(
        bot.unskip(Some("zed")),
        some("Current game has been put at the front of the queue. No game from zed found")
    );
    assert_eq!(bot.skip(false), some("Not playing any game at the moment."));
    assert_eq!(bot.unskip(None), some("No game has been skipped yet"));
}

#[test]
fn skip_all_moves_the_queue_in_order() {
    let mut bot = bot_with_games();
    assert_eq!(bot.skip_all(), some("All games from the queue are moved to the skipped list."));
    let skipped: Vec<String> = bot.state.submissions.skipped.iter().map(|g| g.link.clone()).collect();
    assert_eq!(skipped, vec![LINK_A.to_owned(), LINK_B.to_owned()]);
    assert!(bot.state.submissions.queue.get_queue().is_empty());
    assert_eq!(
        bot.queue("bob"),
        some("@bob, your game was skipped. You may return to the queue using !return command. The queue is empty")
    );
    assert_eq!(bot.return_game("bob"), some("@bob, your game was returned to the queue"));
    assert_eq!(bot.queue("bob"), some("@bob, your game is 1 in the queue. There are 1 games in the queue"));
    assert_eq!(bot.return_game("bob"), None);
}

#[test]
fn returning_to_the_front() {
    let mut c = config();
    c.return_mode = ReturnMode::Front;
    let mut bot = GamejamBot::new(c);
    bot.submit(LINK_A.to_owned(), "alice".to_owned());
    bot.submit(LINK_B.to_owned(), "bob".to_owned());
    bot.next(Some("bob"), false);
    bot.skip(false);
    bot.return_game("bob");
    assert_eq!(bot.queue("bob"), some("@bob, your game is 1 in the queue. There are 2 games in the queue"));
    assert_eq!(bot.queue("alice"), some("@alice, your game is 2 in the queue. There are 2 games in the queue"));
    assert_eq!(bot.queue("zed"), some("There are 2 games in the queue"));
}

#[test]
fn queue_length_without_a_game() {
    let bot = GamejamBot::new(config());
    assert_eq!(bot.queue("zed"), some("The queue is empty"));
}

#[test]
fn next_with_a_time_limit_keeps_the_played_game() {
    let mut c = config();
    c.response_time_limit = Some(30);
    let mut bot = GamejamBot::new(c);
    bot.submit(LINK_A.to_owned(), "alice".to_owned());
    bot.submit(LINK_B.to_owned(), "bob".to_owned());
    bot.next(None, false);
    assert_eq!(bot.next(None, true), some("@bob, we are about to play your game. Please reply in 30 seconds."));
    assert_eq!(bot.state.submissions.played_games.len(), 1);
    assert_eq!(bot.state.submissions.played_games[0].link, LINK_A);
    assert!(matches!(bot.state.current_state, GameJamState::Waiting { .. }));
}

#[test]
fn queue_reply_with_a_sheet() {
    let mut c = config();
    c.queue_mode = false;
    c.google_sheet_config = Some(GoogleSheetConfig { sheet_id: "abc".to_owned(), display_luck: false });
    let mut bot = GamejamBot::new(c);
    bot.submit(LINK_A.to_owned(), "alice".to_owned());
    assert_eq!(
        bot.queue("alice"),
        some("Look at the current queue at: https://docs.google.com/spreadsheets/d/abc/edit#gid=0")
    );
    let mut c = config();
    c.queue_mode = false;
    let bot = GamejamBot::new(c);
    assert_eq!(bot.queue("alice"), None);
}

#[test]
fn cancelling_a_game() {
    let mut bot = bot_with_games();
    assert_eq!(bot.remove_game_response("bob"), some("bob's game has been removed from the queue"));
    assert_eq!(bot.remove_game_response("bob"), some("Couldn't find a game from bob"));
    assert_eq!(bot.remove_game_response("mod"), some("Couldn't find a game from mod"));
    assert_eq!(bot.state.submissions.queue.get_queue().len(), 1);
    assert_eq!(bot.remove_game_response("alice"), some("alice's game has been removed from the queue"));
    assert!(bot.state.submissions.queue.get_queue().is_empty());
}

#[test]
fn editing_authors() {
    let mut bot = bot_with_games();
    let own = GameFilter::Author("alice".to_owned());
    assert_eq!(
        bot.authors_add("alice", "carol".to_owned(), true, &own),
        some("@alice, carol was marked as another author of the game")
    );
    assert_eq!(
        bot.authors_remove("alice", "zed", true, &own),
        some("@alice, zed was not found")
    );
    assert_eq!(
        bot.authors_remove("alice", "carol", true, &own),
        some("@alice, carol was removed from the author list of the game")
    );
    assert_eq!(
        bot.authors_remove("alice", "alice", true, &own),
        some("@alice, you cannot remove the only author of the game. Call !cancel instead")
    );
    assert_eq!(
        bot.authors_add("carol", "x".to_owned(), true, &GameFilter::Author("carol".to_owned())),
        some("@carol, you have not submitted a game yet")
    );
    assert_eq!(
        bot.authors_add("bob", "x".to_owned(), true, &GameFilter::Link(LINK_A.to_owned())),
        some("@bob, you do not have enough rights")
    );
    bot.next(None, true);
    bot.next(None, true);
    assert_eq!(
        bot.authors_add("alice", "x".to_owned(), true, &own),
        some("@alice, you cannot edit played games")
    );
}

#[test]
fn raffle_with_a_chosen_winner() {
    let mut bot = bot_with_games();
    assert_eq!(bot.raffle_start(), some("The raffle has started! Type !join to join the raffle."));
    assert_eq!(bot.raffle_start(), some("The raffle is in progress. Type !join to join the raffle."));
    assert_eq!(bot.raffle_join("alice".to_owned()), None);
    assert_eq!(bot.raffle_join("bob".to_owned()), None);
    assert_eq!(bot.raffle_join("zed".to_owned()), some("@zed, you cannot join the raffle"));
    assert!(bot.raffle_ready());
    assert_eq!(bot.raffle_finish_with(Some(1)), Some(format!("Now playing {} from @bob. ", LINK_B)));
    assert_eq!(bot.state.raffle_weights.get(LINK_A), Some(2));
    assert_eq!(bot.state.raffle_weights.get(LINK_B), None);
    assert_eq!(bot.raffle_finish_with(None), some("The raffle should be started first: !raffle"));
    assert_eq!(bot.raffle_join("bob".to_owned()), None);
}

#[test]
fn raffle_draw_picks_an_entry() {
    let mut bot = bot_with_games();
    bot.raffle_start();
    bot.raffle_join("alice".to_owned());
    bot.raffle_join("bob".to_owned());
    let reply = bot.raffle_finish().unwrap();
    let a = format!("Now playing {} from @alice. ", LINK_A);
    let b = format!("Now playing {} from @bob. ", LINK_B);
    assert!(reply == a || reply == b);
    let loser = if reply == a { LINK_B } else { LINK_A };
    assert_eq!(bot.state.raffle_weights.get(loser), Some(2));
    assert!(bot.check_state());
}

#[test]
fn raffle_without_entries_and_cancel() {
    let mut bot = bot_with_games();
    assert_eq!(bot.raffle_cancel(), some("Raffle is not active anyway. Start the raffle with !raffle"));
    bot.raffle_start();
    assert_eq!(bot.raffle_finish(), some("Noone entered the raffle :("));
    assert!(matches!(bot.state.current_state, GameJamState::Idle));
    bot.raffle_start();
    assert_eq!(bot.raffle_cancel(), some("Raffle is now inactive"));
    bot.next(None, true);
    bot.raffle_start();
    assert_eq!(bot.raffle_join("alice".to_owned()), some("@alice, we have already played your game"));
}

#[test]
fn luck_levels() {
    let mut bot = bot_with_games();
    assert_eq!(bot.luck("zed"), some("@zed, you need to first submit your game!"));
    assert_eq!(bot.luck("bob"), some("@bob, your current luck level is 1"));
    bot.state.raffle_weights.insert("bob".to_owned(), 7);
    assert_eq!(bot.luck("bob"), some("@bob, your current luck level is 7"));
    bot.next(None, true);
    bot.next(None, true);
    assert_eq!(bot.luck("alice"), some("@alice, you can no longer participate in raffles!"));
}

#[test]
fn sheet_rows_show_every_game() {
    let mut bot = bot_with_games();
    bot.submit(LINK_C.to_owned(), "carol".to_owned());
    bot.next(None, true);
    bot.state.raffle_weights.insert(LINK_B.to_owned(), 4);
    let rows = bot.sheet_rows(true);
    let cells: Vec<Vec<String>> = rows.iter().map(|r| r.values.clone()).collect();
    assert_eq!(cells[0], vec!["Game link", "Author", "Luck"]);
    assert_eq!(cells[1], vec![LINK_A, "alice"]);
    assert_eq!(cells[2], vec![LINK_B, "bob", "4"]);
    assert_eq!(cells[3], vec![LINK_C, "carol", "1"]);
    assert_eq!(rows.len(), 4);
    assert_eq!(rows[0].kind, None);
    assert_eq!(rows[1].kind, Some(GameType::Current));
    assert_eq!(rows[2].kind, Some(GameType::Queued));
}

#[test]
fn commands_run_through_perform() {
    let mut bot = GamejamBot::new(config());
    let args = vec![LINK_A.to_owned()];
    assert_eq!(
        bot.perform(GamejamCommand::DirectSubmit, "alice", &args),
        some("@alice, your game has been submitted!")
    );
    assert_eq!(bot.perform(GamejamCommand::DirectSubmit, "bob", &vec!["hello".to_owned()]), None);
    assert_eq!(bot.perform(GamejamCommand::Current, "x", &vec![]), some("Not playing any game at the moment"));
    bot.perform(GamejamCommand::NextQueued, "streamer", &vec![]);
    assert_eq!(
        bot.perform(GamejamCommand::Current, "x", &vec![]),
        Some(format!("Current game is: {} from alice", LINK_A))
    );
    assert_eq!(bot.perform(GamejamCommand::Close, "m", &vec![]), some("The queue is now closed"));
    assert!(!bot.state.is_queue_open);
    assert_eq!(bot.perform(GamejamCommand::Open, "m", &vec![]), some("The queue is now open"));
    assert_eq!(bot.perform(GamejamCommand::Stop, "m", &vec![]), some("Current game set to None"));
    assert_eq!(bot.state.submissions.played_games.len(), 1);
    assert_eq!(bot.perform(GamejamCommand::Luck, "alice", &vec![]), some("@alice, you can no longer participate in raffles!"));
    assert_eq!(bot.perform(GamejamCommand::RaffleStart, "s", &vec![]), some("The raffle has started! Type !join to join the raffle."));
    assert_eq!(bot.perform(GamejamCommand::RaffleFinish, "s", &vec![]), some("Noone entered the raffle :("));
}
