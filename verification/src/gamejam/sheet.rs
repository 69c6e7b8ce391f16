//! The rows of the spreadsheet that shows the jam: a header, the game being
//! played, the queue, the skipped games and the played ones.

use vstd::prelude::*;
use crate::gamejam::bot::{current_of, GameJamConfig, GamejamBot, JamView};
use crate::table::lookup;
use crate::gamejam::submission::{games_view, GameType, GameView, Submission};
use crate::text::{decimal, u64_to_string};
use vstd::string::StringExecFns;

verus! {

/// The authors separated by `", "`.
pub open spec fn joined_authors(a: Seq<Seq<char>>) -> Seq<char>
    decreases a.len(),
{
    if a.len() == 0 {
        Seq::empty()
    } else if a.len() == 1 {
        a[0]
    } else {
        joined_authors(a.drop_last()) + ", "@ + a.last()
    }
}

/// The cells that show a game: its link and its authors.
pub open spec fn game_values(g: GameView) -> Seq<Seq<char>> {
    seq![g.link, joined_authors(g.authors)]
}

/// The header cells.
pub open spec fn header_values(show_luck: bool) -> Seq<Seq<char>> {
    if show_luck {
        seq!["Game link"@, "Author"@, "Luck"@]
    } else {
        seq!["Game link"@, "Author"@]
    }
}

/// The raffle weight shown for a queued game: its saved one, else the
/// default one.
pub open spec fn shown_luck(v: JamView, c: GameJamConfig, link: Seq<char>) -> u32 {
    match lookup(v.weights, link) {
        Some(l) => l,
        None => c.raffle_default_weight,
    }
}

/// The cells of a queued game.
pub open spec fn queued_values(v: JamView, c: GameJamConfig, show_luck: bool, g: GameView) -> Seq<Seq<char>> {
    if show_luck {
        game_values(g).push(decimal(shown_luck(v, c, g.link) as nat))
    } else {
        game_values(g)
    }
}

/// Rows of games of one kind.
pub open spec fn kind_rows(games: Seq<GameView>, kind: GameType) -> Seq<(Seq<Seq<char>>, Option<GameType>)> {
    Seq::new(games.len(), |i: int| (game_values(games[i]), Some(kind)))
}

/// The rows of the sheet, each with its cells and the kind of game it
/// shows (none for the header).
pub open spec fn sheet_rows_spec(v: JamView, c: GameJamConfig, show_luck: bool) -> Seq<
    (Seq<Seq<char>>, Option<GameType>),
> {
    let q = v.subs.queue.order();
    let current = match current_of(v.state) {
        Some(g) => seq![(game_values(g), Some(GameType::Current))],
        None => Seq::empty(),
    };
    let queued = Seq::new(q.len(), |i: int| (queued_values(v, c, show_luck, q[i]), Some(GameType::Queued)));
    seq![(header_values(show_luck), None::<GameType>)] + current + queued + kind_rows(
        v.subs.skipped,
        GameType::Skipped,
    ) + kind_rows(v.subs.played, GameType::Played)
}

/// A row of the sheet.
pub struct SheetRow {
    pub values: Vec<String>,
    /// The kind of game shown; none for the header.
    pub kind: Option<GameType>,
}

/// The model of a row.
pub open spec fn row_view(r: SheetRow) -> (Seq<Seq<char>>, Option<GameType>) {
    (r.values.deep_view(), r.kind)
}

/// The models of rows.
pub open spec fn rows_view(rows: Seq<SheetRow>) -> Seq<(Seq<Seq<char>>, Option<GameType>)> {
    rows.map_values(|r: SheetRow| row_view(r))
}

/// The authors separated by `", "`.
pub fn join_authors(authors: &Vec<String>) -> (r: String)
    ensures
        r@ == joined_authors(authors.deep_view()),
{
    let ghost a = authors.deep_view();
    if authors.len() == 0 {
        return String::new();
    }
    let mut r = authors[0].clone();
    let mut i: usize = 1;
    proof {
        assert(a.take(1).drop_last() =~= Seq::<Seq<char>>::empty());
    }
    while i < authors.len()
        invariant
            1 <= i <= authors.len(),
            a == authors.deep_view(),
            r@ == joined_authors(a.take(i as int)),
        decreases authors.len() - i,
    {
        proof {
            assert(a.take(i + 1).drop_last() =~= a.take(i as int));
        }
        r.append(", ");
        r.append(authors[i].as_str());
        i = i + 1;
    }
    proof {
        assert(a.take(a.len() as int) =~= a);
    }
    r
}

/// The cells that show `game`.
pub fn game_cells(game: &Submission) -> (r: Vec<String>)
    ensures
        r.deep_view() == game_values(game@),
{
    let r = vec![game.link.clone(), join_authors(&game.authors)];
    proof {
        assert(r.deep_view() =~= game_values(game@));
    }
    r
}

fn push_row(rows: &mut Vec<SheetRow>, row: SheetRow)
    ensures
        rows_view(final(rows)@) == rows_view(old(rows)@).push(row_view(row)),
{
    rows.push(row);
    proof {
        assert(rows_view(rows@) =~= rows_view(old(rows)@).push(row_view(row)));
    }
}

fn push_kind_rows(rows: &mut Vec<SheetRow>, games: &Vec<Submission>, kind: GameType)
    ensures
        rows_view(final(rows)@) == rows_view(old(rows)@) + kind_rows(games_view(games@), kind),
{
    let ghost r0 = rows_view(rows@);
    let ghost g = games_view(games@);
    let mut i: usize = 0;
    while i < games.len()
        invariant
            i <= games@.len(),
            g == games_view(games@),
            rows_view(rows@) == r0 + kind_rows(g, kind).take(i as int),
        decreases games@.len() - i,
    {
        let values = game_cells(&games[i]);
        push_row(rows, SheetRow { values, kind: Some(kind) });
        proof {
            assert(kind_rows(g, kind).take(i + 1) =~= kind_rows(g, kind).take(i as int).push(
                (game_values(g[i as int]), Some(kind)),
            ));
        }
        i = i + 1;
    }
    proof {
        assert(kind_rows(g, kind).take(i as int) =~= kind_rows(g, kind));
    }
}

impl GamejamBot {
    /// The cells that show `game` in the sheet.
    pub fn game_to_values(&self, game: &Submission) -> (r: Vec<String>)
        ensures
            r.deep_view() == game_values(game@),
    {
        game_cells(game)
    }

    /// The rows of the sheet, with a luck column where `show_luck` is set.
    pub fn sheet_rows(&self, show_luck: bool) -> (r: Vec<SheetRow>)
        ensures
            rows_view(r@) == sheet_rows_spec(self@, self.config, show_luck),
    {
        let ghost v = self@;
        let mut rows: Vec<SheetRow> = Vec::new();
        let header = if show_luck {
            vec!["Game link".to_owned(), "Author".to_owned(), "Luck".to_owned()]
        } else {
            vec!["Game link".to_owned(), "Author".to_owned()]
        };
        proof {
            assert(header.deep_view() =~= header_values(show_luck));
        }
        push_row(&mut rows, SheetRow { values: header, kind: None });
        match self.state.current_state.current() {
            Some(game) => {
                let values = game_cells(game);
                push_row(&mut rows, SheetRow { values, kind: Some(GameType::Current) });
            },
            None => {},
        }
        let ghost r0 = rows_view(rows@);
        let ghost q = v.subs.queue.order();
        let ghost queued = Seq::new(
            q.len(),
            |i: int| (queued_values(v, self.config, show_luck, q[i]), Some(GameType::Queued)),
        );
        let queue = self.state.submissions.queue.get_queue();
        let mut i: usize = 0;
        while i < queue.len()
            invariant
                i <= queue@.len(),
                queue@.len() == q.len(),
                v == self@,
                q == v.subs.queue.order(),
                queued == Seq::new(
                    q.len(),
                    |i: int| (queued_values(v, self.config, show_luck, q[i]), Some(GameType::Queued)),
                ),
                forall|k: int| 0 <= k < queue@.len() ==> (*#[trigger] queue@[k])@ == q[k],
                rows_view(rows@) == r0 + queued.take(i as int),
            decreases queue@.len() - i,
        {
            let game = queue[i];
            let mut values = game_cells(game);
            if show_luck {
                let luck = match self.state.raffle_weights.get(game.link.as_str()) {
                    Some(l) => l,
                    None => self.config.raffle_default_weight,
                };
                let ghost before = values.deep_view();
                values.push(u64_to_string(luck as u64));
                proof {
                    assert(values.deep_view() =~= before.push(decimal(luck as nat)));
                }
            }
            push_row(&mut rows, SheetRow { values, kind: Some(GameType::Queued) });
            proof {
                assert(queued.take(i + 1) =~= queued.take(i as int).push(queued[i as int]));
            }
            i = i + 1;
        }
        proof {
            assert(queued.take(i as int) =~= queued);
        }
        push_kind_rows(&mut rows, &self.state.submissions.skipped, GameType::Skipped);
        push_kind_rows(&mut rows, &self.state.submissions.played_games, GameType::Played);
        proof {
            let current = match current_of(v.state) {
                Some(g) => seq![(game_values(g), Some(GameType::Current))],
                None => Seq::empty(),
            };
            assert(r0 =~= seq![(header_values(show_luck), None::<GameType>)] + current);
        }
        rows
    }
}

} // verus!
