//! The rows of the spreadsheet that shows the first game-jam bot's queue: a
//! header, the game being played, the queue, the skipped games and the
//! played ones, each game as its link and its author.

use vstd::prelude::*;
use crate::classic::{games_of, ClassicView, GameJamBot, GameV};
use crate::gamejam::sheet::{row_view, rows_view, SheetRow};
use crate::gamejam::submission::GameType;
use crate::ld::Game;

verus! {

/// The cells that show a game: its link and its author.
pub open spec fn classic_values(g: GameV) -> Seq<Seq<char>> {
    seq![g.1, g.0]
}

/// Rows of games of one kind.
pub open spec fn classic_kind_rows(games: Seq<GameV>, kind: GameType) -> Seq<(Seq<Seq<char>>, Option<GameType>)> {
    Seq::new(games.len(), |i: int| (classic_values(games[i]), Some(kind)))
}

/// The rows of the sheet, each with its cells and the kind of game it
/// shows (none for the header).
pub open spec fn classic_rows_spec(v: ClassicView) -> Seq<(Seq<Seq<char>>, Option<GameType>)> {
    let current = match v.current {
        Some(g) => seq![(classic_values(g), Some(GameType::Current))],
        None => Seq::empty(),
    };
    seq![(seq!["Game link"@, "Author"@], None::<GameType>)] + current + classic_kind_rows(
        v.returned + v.games,
        GameType::Queued,
    ) + classic_kind_rows(v.skipped, GameType::Skipped) + classic_kind_rows(v.played, GameType::Played)
}

fn add_row(rows: &mut Vec<SheetRow>, row: SheetRow)
    ensures
        rows_view(final(rows)@) == rows_view(old(rows)@).push(row_view(row)),
{
    rows.push(row);
    proof {
        assert(rows_view(rows@) =~= rows_view(old(rows)@).push(row_view(row)));
    }
}

/// The cells that show `game`.
pub fn classic_cells(game: &Game) -> (r: Vec<String>)
    ensures
        r.deep_view() == classic_values(game@),
{
    let r = vec![game.name.clone(), game.author.clone()];
    proof {
        assert(r.deep_view() =~= classic_values(game@));
    }
    r
}

fn add_kind_rows(rows: &mut Vec<SheetRow>, games: &Vec<Game>, kind: GameType)
    ensures
        rows_view(final(rows)@) == rows_view(old(rows)@) + classic_kind_rows(games_of(games@), kind),
{
    let ghost r0 = rows_view(rows@);
    let ghost g = games_of(games@);
    let mut i: usize = 0;
    while i < games.len()
        invariant
            i <= games@.len(),
            g == games_of(games@),
            rows_view(rows@) == r0 + classic_kind_rows(g, kind).take(i as int),
        decreases games@.len() - i,
    {
        let values = classic_cells(&games[i]);
        add_row(rows, SheetRow { values, kind: Some(kind) });
        proof {
            assert(classic_kind_rows(g, kind).take(i + 1) =~= classic_kind_rows(g, kind).take(i as int).push(
                (classic_values(g[i as int]), Some(kind)),
            ));
        }
        i = i + 1;
    }
    proof {
        assert(classic_kind_rows(g, kind).take(i as int) =~= classic_kind_rows(g, kind));
    }
}

impl GameJamBot {
    /// The rows of the sheet.
    pub fn sheet_rows(&self) -> (r: Vec<SheetRow>)
        ensures
            rows_view(r@) == classic_rows_spec(self@),
    {
        let ghost v = self@;
        let mut rows: Vec<SheetRow> = Vec::new();
        let header = vec!["Game link".to_owned(), "Author".to_owned()];
        proof {
            assert(header.deep_view() =~= seq!["Game link"@, "Author"@]);
        }
        add_row(&mut rows, SheetRow { values: header, kind: None });
        match &self.games_state.current_game {
            Some(game) => {
                let values = classic_cells(game);
                add_row(&mut rows, SheetRow { values, kind: Some(GameType::Current) });
            },
            None => {},
        }
        let ghost r0 = rows_view(rows@);
        add_kind_rows(&mut rows, &self.games_state.returned_queue, GameType::Queued);
        add_kind_rows(&mut rows, &self.games_state.games_queue, GameType::Queued);
        add_kind_rows(&mut rows, &self.games_state.skipped, GameType::Skipped);
        add_kind_rows(&mut rows, &self.played_games, GameType::Played);
        proof {
            assert(classic_kind_rows(v.returned, GameType::Queued) + classic_kind_rows(v.games, GameType::Queued)
                =~= classic_kind_rows(v.returned + v.games, GameType::Queued));
            let current = match v.current {
                Some(g) => seq![(classic_values(g), Some(GameType::Current))],
                None => Seq::empty(),
            };
            assert(r0 =~= seq![(seq!["Game link"@, "Author"@], None::<GameType>)] + current);
            assert(rows_view(rows@) =~= classic_rows_spec(v));
        }
        rows
    }
}

} // verus!
