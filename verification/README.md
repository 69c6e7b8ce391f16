# nertsal_bot

A Twitch chat bot whose rules are written in Verus and proved against
their contracts. The library (`src/`) holds the logic: command trees and
authority checks, the game-jam queue with its raffle, quotes, custom
commands, votes, the main bot that starts and stops the others, console
completion, and the smaller reply and Ludum Dare bots. The program
(`app/`) connects to Twitch, reads the console, keeps the files, writes
the game jam's Google spreadsheet, serves the bots' state over HTTP, and
hands the library plain values.

Layout of `src/`:

- `text.rs`: the string operations the rules use (trimming, words,
  prefixes, UTF-8 byte offsets, decimal numbers).
- `commands.rs`: command trees, how a message is matched against them,
  and who may run a command; `simple_commands.rs`: flat `!name` lists.
- `table.rs`: tables from names to numbers or texts, each name once.
- `random.rs`: the random draws, made by `rand`.
- `gamejam/`: submissions, the queue, the bot's commands and their
  specifications, the spreadsheet rows, and the laws the commands keep.
- `classic.rs`, `classic_commands.rs`, `classic_sheet.rs`,
  `classic_laws.rs`: the first game-jam bot, with one author per game.
- `registry.rs` and `channels.rs`: the main bot and its first version.
- `quote.rs`, `custom.rs`, `vote.rs`, `reply.rs`, `ld.rs`, `completion.rs`,
  `server.rs`: the other bots and parts.

Each bot's state has a model (`@`), each command a specification over that
model, and the laws (functions named `law_*`) state what commands promise
together, such as that `!unskip` undoes `!skip` or that the counts of a
vote add up to the number of voters.
