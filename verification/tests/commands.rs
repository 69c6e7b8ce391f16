use nertsal_bot::commands::{
    check_authority, final_node, line_node, literal_node, word_node, ArgumentType, AuthorityLevel,
    BotCommands, CommandMessage, CommandNode,
};
use nertsal_bot::gamejam::bot::GamejamBot;
use nertsal_bot::gamejam::commands::GamejamCommand;
use nertsal_bot::simple_commands;

fn message(text: &str, badges: &[&str]) -> CommandMessage {
    CommandMessage {
        sender_name: "viewer".to_owned(),
        message_text: text.to_owned(),
        badges: badges.iter().map(|b| b.to_string()).collect(),
    }
}

#[test]
fn authority_is_the_highest_badge() {
    let none: Vec<String> = vec![];
    assert_eq!(AuthorityLevel::from_badges(&none), AuthorityLevel::Viewer);
    let b = vec!["subscriber".to_owned(), "moderator".to_owned()];
    assert_eq!(AuthorityLevel::from_badges(&b), AuthorityLevel::Moderator);
    let b = vec!["moderator".to_owned(), "broadcaster".to_owned(), "vip".to_owned()];
    assert_eq!(AuthorityLevel::from_badges(&b), AuthorityLevel::Broadcaster);
    assert_eq!(AuthorityLevel::from_badge("broadcaster"), AuthorityLevel::Broadcaster);
    assert_eq!(AuthorityLevel::Moderator.level(), 1);
}

#[test]
fn authority_check() {
    let m = message("!x", &["moderator"]);
    assert!(check_authority(&AuthorityLevel::Viewer, &m));
    assert!(check_authority(&AuthorityLevel::Moderator, &m));
    assert!(!check_authority(&AuthorityLevel::Broadcaster, &m));
}

#[test]
fn check_node_collects_arguments() {
    let node: CommandNode<u8> = literal_node(
        "!quote",
        vec![
            final_node(AuthorityLevel::Viewer, 0),
            literal_node("add", vec![word_node(line_node(final_node(AuthorityLevel::Moderator, 1)))]),
        ],
    );
    match node.check_node("!quote add name the rest of it", Vec::new()) {
        Some((CommandNode::FinalNode { command, .. }, args)) => {
            assert_eq!(*command, 1);
            assert_eq!(args, vec!["name".to_owned(), "the rest of it".to_owned()]);
        }
        _ => panic!("no match"),
    }
    match node.check_node("!quote", Vec::new()) {
        Some((CommandNode::FinalNode { command, .. }, args)) => {
            assert_eq!(*command, 0);
            assert!(args.is_empty());
        }
        _ => panic!("no match"),
    }
    assert!(node.check_node("!quot", Vec::new()).is_none());
    let word: CommandNode<u8> = CommandNode::ArgumentNode {
        argument_type: ArgumentType::Word,
        child_node: Box::new(final_node(AuthorityLevel::Viewer, 2)),
    };
    assert!(word.check_node("two words", Vec::new()).is_none());
}

#[test]
fn gamejam_tree_finds_commands_in_root_order() {
    let commands = GamejamBot::commands();
    let found = commands.find_commands(&message("!queue", &[]));
    assert_eq!(found.len(), 2);
    assert_eq!(found[0].0, GamejamCommand::DirectSubmit);
    assert_eq!(found[0].1, vec!["!queue".to_owned()]);
    assert_eq!(found[1].0, GamejamCommand::Queue);
    let found = commands.find_commands(&message("!skip", &[]));
    assert_eq!(found.len(), 1);
    assert_eq!(found[0].0, GamejamCommand::DirectSubmit);
    let found = commands.find_commands(&message("!skip all", &["broadcaster"]));
    assert_eq!(found.len(), 1);
    assert_eq!(found[0].0, GamejamCommand::SkipAll);
    let found = commands.find_commands(&message("!stop", &["moderator"]));
    assert!(found.iter().any(|(c, _)| *c == GamejamCommand::Stop));
    let found = commands.find_commands(&message("!stop", &[]));
    assert!(!found.iter().any(|(c, _)| *c == GamejamCommand::Stop));
    let found = commands.find_commands(&message("!authors add link other", &["moderator"]));
    assert_eq!(found.len(), 1);
    assert_eq!(found[0].0, GamejamCommand::AuthorsAddLink);
    assert_eq!(found[0].1, vec!["link".to_owned(), "other".to_owned()]);
    let found = commands.find_commands(&message("!authors add other", &[]));
    assert_eq!(found.len(), 1);
    assert_eq!(found[0].0, GamejamCommand::AuthorsAddOwn);
}

#[test]
fn bot_commands_of_nothing_find_nothing() {
    let empty: BotCommands<u8> = BotCommands { commands: vec![] };
    assert!(empty.find_commands(&message("!anything", &[])).is_empty());
}

fn chat(text: &str, badges: &[&str]) -> simple_commands::ChatMessage {
    simple_commands::ChatMessage {
        message_text: text.to_owned(),
        badges: badges.iter().map(|b| b.to_string()).collect(),
    }
}

#[test]
fn flat_commands() {
    let commands = simple_commands::BotCommands {
        commands: vec![
            simple_commands::BotCommand {
                name: "next".to_owned(),
                authority_level: simple_commands::AuthorityLevel::Broadcaster,
                command: 1u8,
            },
            simple_commands::BotCommand {
                name: "submit".to_owned(),
                authority_level: simple_commands::AuthorityLevel::Any,
                command: 2u8,
            },
        ],
    };
    let (c, args) = commands.check_command(&chat("!submit  my link ", &[])).unwrap();
    assert_eq!(c.command, 2);
    assert_eq!(args, "my link");
    assert!(commands.check_command(&chat("!next", &["moderator"])).is_none());
    let (c, _) = commands.check_command(&chat("!next", &["broadcaster"])).unwrap();
    assert_eq!(c.command, 1);
    assert!(commands.check_command(&chat("submit", &[])).is_none());
    assert!(commands.find("nothing", &chat("!x", &[])).is_none());
    assert!(simple_commands::check_badges(vec!["moderator"], &chat("!x", &["vip", "moderator"])));
    assert!(!simple_commands::check_authority(
        &simple_commands::AuthorityLevel::Moderator,
        &chat("!x", &["vip"])
    ));
}
