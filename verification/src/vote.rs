//! The vote bot: while a vote runs, each viewer's last vote counts; when
//! it ends, the votes are counted per answer.

use vstd::prelude::*;
use crate::commands::{
    child, final_node, is_argument, is_literal, line_node, literal_node, literal_runs, runs, ArgumentType,
    AuthorityLevel, BotCommands,
};
use crate::table::{has_key, keys_unique, lemma_key_index, lemma_upsert_unique, lookup, upsert, TextTable};
use crate::text::{concat_text, decimal, reply_is, u64_to_string};
use vstd::string::{StrSliceExecFns, StringExecFns};

verus! {

/// What `str::to_lowercase` gives for `s`.
pub uninterp spec fn lowercase(s: Seq<char>) -> Seq<char>;

/// `s` in lower case, by `str::to_lowercase`; the result is named, a
/// function of `s` alone.
#[verifier::external_body]
fn to_lowercase(s: &str) -> (r: String)
    ensures
        r@ == lowercase(s@),
{
    s.to_lowercase()
}

#[verifier::external_type_specification]
#[verifier::external_body]
pub struct ExJsonError(serde_json::Error);

/// The JSON text that `serde_json::to_string` writes for a list of
/// answers with their counts.
pub uninterp spec fn counts_json(counts: Seq<(Seq<char>, usize)>) -> Seq<char>;

/// The counts as JSON, by `serde_json::to_string`: an array of
/// `[answer, count]` pairs. The contract says that the call succeeds (it
/// writes strings and integers into a `Vec<u8>`, which cannot fail) and
/// names its text.
#[verifier::external_body]
fn to_json(counts: &Vec<(String, usize)>) -> (r: Result<String, serde_json::Error>)
    ensures
        r is Ok,
        r matches Ok(s) ==> s@ == counts_json(counts_view(counts@)),
{
    serde_json::to_string(counts)
}

/// The model of a list of answers with their counts.
pub open spec fn counts_view(c: Seq<(String, usize)>) -> Seq<(Seq<char>, usize)> {
    c.map_values(|e: (String, usize)| (e.0@, e.1))
}

/// Whether `a` comes before `b`: the order of `String`'s `Ord`, which
/// compares the UTF-8 bytes and so orders by the characters' code points.
pub open spec fn text_lt(a: Seq<char>, b: Seq<char>) -> bool
    decreases a.len(),
{
    if a.len() == 0 {
        b.len() > 0
    } else if b.len() == 0 {
        false
    } else if a[0] != b[0] {
        (a[0] as int) < (b[0] as int)
    } else {
        text_lt(a.drop_first(), b.drop_first())
    }
}

pub proof fn lemma_text_lt_irreflexive(a: Seq<char>)
    ensures
        !text_lt(a, a),
    decreases a.len(),
{
    if a.len() > 0 {
        lemma_text_lt_irreflexive(a.drop_first());
    }
}

pub proof fn lemma_text_lt_total(a: Seq<char>, b: Seq<char>)
    ensures
        a != b ==> text_lt(a, b) || text_lt(b, a),
        !(text_lt(a, b) && text_lt(b, a)),
    decreases a.len(),
{
    if a.len() > 0 && b.len() > 0 {
        lemma_text_lt_total(a.drop_first(), b.drop_first());
        if a[0] == b[0] && a != b {
            assert(a =~= seq![a[0]] + a.drop_first());
            assert(b =~= seq![b[0]] + b.drop_first());
        }
    } else if a.len() == 0 && b.len() == 0 {
        assert(a =~= b);
    }
}

pub proof fn lemma_text_lt_transitive(a: Seq<char>, b: Seq<char>, c: Seq<char>)
    requires
        text_lt(a, b),
        text_lt(b, c),
    ensures
        text_lt(a, c),
    decreases a.len(),
{
    if a.len() > 0 && b.len() > 0 && c.len() > 0 && a[0] == b[0] && b[0] == c[0] {
        lemma_text_lt_transitive(a.drop_first(), b.drop_first(), c.drop_first());
    }
}

/// Whether `a` comes before `b`.
pub fn less_text(a: &str, b: &str) -> (r: bool)
    ensures
        r == text_lt(a@, b@),
{
    let n = a.unicode_len();
    let m = b.unicode_len();
    let mut i: usize = 0;
    proof {
        assert(a@.skip(0) =~= a@);
        assert(b@.skip(0) =~= b@);
    }
    while i < n && i < m
        invariant
            i <= n,
            i <= m,
            n == a@.len(),
            m == b@.len(),
            text_lt(a@, b@) == text_lt(a@.skip(i as int), b@.skip(i as int)),
        decreases n - i,
    {
        let x = a.get_char(i);
        let y = b.get_char(i);
        if x != y {
            proof {
                assert(a@.skip(i as int)[0] == x);
                assert(b@.skip(i as int)[0] == y);
            }
            return (x as u32) < (y as u32);
        }
        proof {
            assert(a@.skip(i as int).drop_first() =~= a@.skip(i + 1));
            assert(b@.skip(i as int).drop_first() =~= b@.skip(i + 1));
        }
        i = i + 1;
    }
    i < m
}

/// How many of the votes are `x`.
pub open spec fn count_of(votes: Seq<(Seq<char>, Seq<char>)>, x: Seq<char>) -> nat
    decreases votes.len(),
{
    if votes.len() == 0 {
        0
    } else {
        count_of(votes.drop_last(), x) + if votes.last().1 == x {
            1nat
        } else {
            0nat
        }
    }
}

/// The answers come in strictly increasing order.
pub open spec fn sorted_answers(c: Seq<(Seq<char>, usize)>) -> bool {
    forall|i: int, j: int| 0 <= i < j < c.len() ==> text_lt(#[trigger] c[i].0, #[trigger] c[j].0)
}

/// `c` counts `votes`: its answers in order, each once, are exactly the
/// answers given, each with the number of voters who gave it.
pub open spec fn counts_votes(c: Seq<(Seq<char>, usize)>, votes: Seq<(Seq<char>, Seq<char>)>) -> bool {
    &&& sorted_answers(c)
    &&& forall|x: Seq<char>| #[trigger] count_of(votes, x) == match lookup(c, x) {
        Some(k) => k as nat,
        None => 0nat,
    }
    &&& forall|i: int| 0 <= i < c.len() ==> #[trigger] c[i].1 > 0
}

/// The sum of the counts.
pub open spec fn total(c: Seq<(Seq<char>, usize)>) -> int
    decreases c.len(),
{
    if c.len() == 0 {
        0
    } else {
        total(c.drop_last()) + c.last().1
    }
}

/// The votes for the answers of `c`, added up.
spec fn counted(c: Seq<(Seq<char>, usize)>, votes: Seq<(Seq<char>, Seq<char>)>) -> int
    decreases c.len(),
{
    if c.len() == 0 {
        0
    } else {
        counted(c.drop_last(), votes) + count_of(votes, c.last().0)
    }
}

/// How many answers of `c` are `x`.
spec fn hits_of(c: Seq<(Seq<char>, usize)>, x: Seq<char>) -> int
    decreases c.len(),
{
    if c.len() == 0 {
        0
    } else {
        hits_of(c.drop_last(), x) + if c.last().0 == x {
            1int
        } else {
            0int
        }
    }
}

proof fn lemma_counted_push(c: Seq<(Seq<char>, usize)>, votes: Seq<(Seq<char>, Seq<char>)>, e: (Seq<char>, Seq<char>))
    ensures
        counted(c, votes.push(e)) == counted(c, votes) + hits_of(c, e.1),
    decreases c.len(),
{
    assert(votes.push(e).drop_last() =~= votes);
    if c.len() > 0 {
        lemma_counted_push(c.drop_last(), votes, e);
    }
}

proof fn lemma_hits_unique(c: Seq<(Seq<char>, usize)>, x: Seq<char>)
    requires
        keys_unique(c),
    ensures
        hits_of(c, x) == if has_key(c, x) {
            1int
        } else {
            0int
        },
    decreases c.len(),
{
    lemma_key_index(c, x, 0);
    if c.len() > 0 {
        let d = c.drop_last();
        assert(keys_unique(d)) by {
            assert forall|i: int, j: int| 0 <= i < j < d.len() implies #[trigger] d[i].0 != #[trigger] d[j].0 by {
                assert(d[i] == c[i] && d[j] == c[j]);
            }
        }
        lemma_hits_unique(d, x);
        lemma_key_index(d, x, 0);
        if has_key(d, x) {
            let k = crate::table::key_index(d, x, 0)->0;
            assert(c[k] == d[k]);
        }
        if has_key(c, x) && c.last().0 != x {
            let k = crate::table::key_index(c, x, 0)->0;
            assert(d[k] == c[k]);
        }
    }
}

proof fn lemma_counted_all(c: Seq<(Seq<char>, usize)>, votes: Seq<(Seq<char>, Seq<char>)>)
    requires
        keys_unique(c),
        forall|j: int| 0 <= j < votes.len() ==> has_key(c, #[trigger] votes[j].1),
    ensures
        counted(c, votes) == votes.len(),
    decreases votes.len(),
{
    if votes.len() == 0 {
        lemma_counted_none(c, votes);
    } else {
        let d = votes.drop_last();
        assert forall|j: int| 0 <= j < d.len() implies has_key(c, #[trigger] d[j].1) by {
            assert(d[j] == votes[j]);
        }
        lemma_counted_all(c, d);
        lemma_counted_push(c, d, votes.last());
        assert(d.push(votes.last()) =~= votes);
        lemma_hits_unique(c, votes.last().1);
        assert(has_key(c, votes[votes.len() - 1].1));
    }
}

proof fn lemma_counted_none(c: Seq<(Seq<char>, usize)>, votes: Seq<(Seq<char>, Seq<char>)>)
    requires
        votes.len() == 0,
    ensures
        counted(c, votes) == 0,
    decreases c.len(),
{
    if c.len() > 0 {
        lemma_counted_none(c.drop_last(), votes);
    }
}

proof fn lemma_total_counted(c: Seq<(Seq<char>, usize)>, votes: Seq<(Seq<char>, Seq<char>)>)
    requires
        forall|i: int| 0 <= i < c.len() ==> count_of(votes, (#[trigger] c[i]).0) == c[i].1,
    ensures
        total(c) == counted(c, votes),
    decreases c.len(),
{
    if c.len() > 0 {
        let d = c.drop_last();
        assert forall|i: int| 0 <= i < d.len() implies count_of(votes, (#[trigger] d[i]).0) == d[i].1 by {
            assert(d[i] == c[i]);
        }
        lemma_total_counted(d, votes);
        assert(count_of(votes, c[c.len() - 1].0) == c[c.len() - 1].1);
    }
}

proof fn lemma_count_of_given(votes: Seq<(Seq<char>, Seq<char>)>, j: int)
    requires
        0 <= j < votes.len(),
    ensures
        count_of(votes, votes[j].1) >= 1,
    decreases votes.len(),
{
    if j < votes.len() - 1 {
        assert(votes.drop_last()[j] == votes[j]);
        lemma_count_of_given(votes.drop_last(), j);
    }
}

/// The counts of a vote add up to the number of voters.
pub proof fn law_counts_total(c: Seq<(Seq<char>, usize)>, votes: Seq<(Seq<char>, Seq<char>)>)
    requires
        counts_votes(c, votes),
    ensures
        total(c) == votes.len(),
{
    assert(keys_unique(c)) by {
        assert forall|i: int, j: int| 0 <= i < j < c.len() implies #[trigger] c[i].0 != #[trigger] c[j].0 by {
            lemma_text_lt_irreflexive(c[i].0);
        }
    }
    assert forall|i: int| 0 <= i < c.len() implies count_of(votes, (#[trigger] c[i]).0) == c[i].1 by {
        crate::table::lemma_key_index_at(c, i);
        assert(count_of(votes, c[i].0) == match lookup(c, c[i].0) {
            Some(k) => k as nat,
            None => 0nat,
        });
    }
    lemma_total_counted(c, votes);
    assert forall|j: int| 0 <= j < votes.len() implies has_key(c, #[trigger] votes[j].1) by {
        lemma_count_of_given(votes, j);
        assert(count_of(votes, votes[j].1) == match lookup(c, votes[j].1) {
            Some(k) => k as nat,
            None => 0nat,
        });
    }
    lemma_counted_all(c, votes);
}

/// Whether a vote is running, with the votes by voter.
pub enum VoteMode {
    Inactive,
    Active { votes: TextTable },
}

/// The vote bot's state.
pub struct VoteState {
    pub vote_mode: VoteMode,
    /// The counts of the last vote.
    pub last_vote: Vec<(String, usize)>,
}

/// What the vote bot shows of its state.
pub struct VoteSerialized {
    pub state: VoteState,
}

/// The commands of the vote bot.
#[derive(Clone, Copy, PartialEq, Eq, Debug, Structural)]
pub enum VoteCommand {
    Start,
    Finish,
    Vote,
}

/// The vote bot.
pub struct VoteBot {
    pub state: VoteState,
    pub commands: BotCommands<VoteCommand>,
    /// The status line that the bot last set.
    pub status: Option<String>,
}

/// The votes of the running vote, if one runs.
pub open spec fn running_votes(b: VoteBot) -> Option<Seq<(Seq<char>, Seq<char>)>> {
    match b.state.vote_mode {
        VoteMode::Active { votes } => Some(votes@),
        VoteMode::Inactive => None,
    }
}

/// The running vote's table has each voter once.
pub open spec fn vote_wf(b: VoteBot) -> bool {
    b.state.vote_mode matches VoteMode::Active { votes } ==> votes.wf()
}

/// What `!vote start` does: a vote starts unless one runs.
pub open spec fn start_outcome(b: VoteBot, b2: VoteBot, r: Option<String>) -> bool {
    &&& b2.state.last_vote@ == b.state.last_vote@
    &&& match running_votes(b) {
        Some(v) => running_votes(b2) == Some(v) && b2.status == b.status && reply_is(
            r,
            "The voting is in progress."@,
        ),
        None => running_votes(b2) == Some(Seq::<(Seq<char>, Seq<char>)>::empty()) && reply_is(
            b2.status,
            "The voting is in progress"@,
        ) && reply_is(r, "The voting has started. Type !vote <your vote>"@),
    }
}

/// What a vote does: where a vote runs, the voter's vote, in lower case,
/// replaces their earlier one.
pub open spec fn vote_outcome(b: VoteBot, b2: VoteBot, voter: Seq<char>, vote: Seq<char>, r: Option<String>) -> bool {
    &&& r is None
    &&& b2.status == b.status
    &&& b2.state.last_vote@ == b.state.last_vote@
    &&& running_votes(b2) == match running_votes(b) {
        Some(v) => Some(upsert(v, voter, lowercase(vote))),
        None => None,
    }
}

/// What `!vote finish` does: the vote ends, and the status shows the
/// counts.
pub open spec fn finish_outcome(b: VoteBot, b2: VoteBot, r: Option<String>) -> bool {
    &&& running_votes(b2) is None
    &&& b2.state.last_vote@ == b.state.last_vote@
    &&& match running_votes(b) {
        Some(v) => exists|c: Seq<(Seq<char>, usize)>|
            #![trigger counts_json(c)]
            counts_votes(c, v) && reply_is(b2.status, counts_json(c)) && reply_is(
                r,
                "The voting has finished with the total of "@ + decimal(v.len()) + " votes and "@ + decimal(
                    c.len(),
                ) + " unique ones."@,
            ),
        None => b2.status == b.status && reply_is(r, "The voting should be started first: !vote start"@),
    }
}

/// Inserting `x` at `p` keeps a table's lookups of other keys, where `x`
/// is new.
proof fn lemma_insert_lookup(c: Seq<(Seq<char>, usize)>, p: int, e: (Seq<char>, usize))
    requires
        keys_unique(c),
        0 <= p <= c.len(),
        !has_key(c, e.0),
    ensures
        keys_unique(c.insert(p, e)),
        lookup(c.insert(p, e), e.0) == Some(e.1),
        forall|y: Seq<char>| y != e.0 ==> #[trigger] lookup(c.insert(p, e), y) == lookup(c, y),
{
    let d = c.insert(p, e);
    lemma_key_index(c, e.0, 0);
    assert forall|i: int, j: int| 0 <= i < j < d.len() implies #[trigger] d[i].0 != #[trigger] d[j].0 by {
        if i < p && j < p {
        } else if i < p && j == p {
            assert(c[i].0 != e.0);
        } else if i < p {
            assert(d[j] == c[j - 1]);
        } else if i == p {
            assert(d[j] == c[j - 1]);
            assert(c[j - 1].0 != e.0);
        } else {
            assert(d[i] == c[i - 1] && d[j] == c[j - 1]);
        }
    }
    crate::table::lemma_key_index_at(d, p);
    assert forall|y: Seq<char>| y != e.0 implies #[trigger] lookup(d, y) == lookup(c, y) by {
        lemma_key_index(c, y, 0);
        lemma_key_index(d, y, 0);
        match key_index(c, y, 0) {
            Some(j) => {
                if j < p {
                    assert(d[j] == c[j]);
                    crate::table::lemma_key_index_at(d, j);
                } else {
                    assert(d[j + 1] == c[j]);
                    crate::table::lemma_key_index_at(d, j + 1);
                }
            },
            None => {
                match key_index(d, y, 0) {
                    Some(j) => {
                        if j < p {
                            assert(d[j] == c[j]);
                        } else if j > p {
                            assert(d[j] == c[j - 1]);
                        }
                    },
                    None => {},
                }
            },
        }
    }
}

use crate::table::key_index;

impl VoteBot {
    /// The bot's name.
    pub fn name() -> (r: &'static str)
        ensures
            r@ == "VoteBot"@,
    {
        "VoteBot"
    }

    /// A bot with no vote running.
    pub fn new() -> (r: VoteBot)
        ensures
            running_votes(r) is None,
            r.state.last_vote@.len() == 0,
            r.status is None,
            r.commands.commands@.len() == 1,
    {
        VoteBot {
            state: VoteState { vote_mode: VoteMode::Inactive, last_vote: Vec::new() },
            commands: VoteBot::commands(),
            status: None,
        }
    }

    /// Starts a vote.
    pub fn vote_start(&mut self) -> (r: Option<String>)
        ensures
            final(self).commands == old(self).commands,
            start_outcome(*old(self), *final(self), r),
            vote_wf(*old(self)) ==> vote_wf(*final(self)),
    {
        match &self.state.vote_mode {
            VoteMode::Active { .. } => {
                return Some("The voting is in progress.".to_owned());
            },
            VoteMode::Inactive => {},
        }
        self.state.vote_mode = VoteMode::Active { votes: TextTable::new() };
        self.status = Some("The voting is in progress".to_owned());
        Some("The voting has started. Type !vote <your vote>".to_owned())
    }

    /// Records `voter`'s vote, in lower case, where a vote runs.
    pub fn vote(&mut self, voter: String, vote: String) -> (r: Option<String>)
        requires
            vote_wf(*old(self)),
        ensures
            final(self).commands == old(self).commands,
            vote_wf(*final(self)),
            vote_outcome(*old(self), *final(self), voter@, vote@, r),
    {
        match &mut self.state.vote_mode {
            VoteMode::Active { votes } => {
                votes.insert(voter, to_lowercase(vote.as_str()));
            },
            VoteMode::Inactive => {},
        }
        None
    }

    /// Ends the vote and counts it: the status line shows the answers in
    /// order with their counts.
    pub fn vote_finish(&mut self) -> (r: Option<String>)
        requires
            vote_wf(*old(self)),
        ensures
            final(self).commands == old(self).commands,
            finish_outcome(*old(self), *final(self), r),
    {
        let mut mode = VoteMode::Inactive;
        std::mem::swap(&mut mode, &mut self.state.vote_mode);
        match mode {
            VoteMode::Active { votes } => {
                let voters = votes.len();
                let counts = count_votes(&votes);
                let ghost cv = counts_view(counts@);
                match to_json(&counts) {
                    Ok(json) => {
                        self.status = Some(json);
                    },
                    Err(_) => {},
                }
                let mut reply = concat_text("The voting has finished with the total of ", u64_to_string(voters as u64).as_str());
                reply.append(" votes and ");
                reply.append(u64_to_string(counts.len() as u64).as_str());
                reply.append(" unique ones.");
                proof {
                    assert(counts_votes(cv, votes@));
                }
                Some(reply)
            },
            VoteMode::Inactive => Some("The voting should be started first: !vote start".to_owned()),
        }
    }

    /// Runs `command` for `voter` with `args`, as the command tree found it
    /// in a message.
    pub fn perform(&mut self, command: VoteCommand, voter: &str, args: &Vec<String>) -> (r: Option<String>)
        requires
            vote_wf(*old(self)),
            command == VoteCommand::Vote ==> args@.len() >= 1,
        ensures
            final(self).commands == old(self).commands,
            vote_wf(*final(self)),
            match command {
                VoteCommand::Start => start_outcome(*old(self), *final(self), r),
                VoteCommand::Finish => finish_outcome(*old(self), *final(self), r),
                VoteCommand::Vote => vote_outcome(*old(self), *final(self), voter@, args@[0]@, r),
            },
    {
        match command {
            VoteCommand::Start => self.vote_start(),
            VoteCommand::Finish => self.vote_finish(),
            VoteCommand::Vote => self.vote(voter.to_owned(), args[0].clone()),
        }
    }

    /// What the bot shows of its state.
    pub fn serialize(&self) -> (r: VoteSerialized)
        ensures
            running_votes(*self) matches Some(v) ==> r.state.vote_mode matches VoteMode::Active { votes } && votes@
                == v,
            running_votes(*self) is None ==> r.state.vote_mode is Inactive,
            r.state.last_vote@.len() == self.state.last_vote@.len(),
            forall|i: int|
                0 <= i < r.state.last_vote@.len() ==> (#[trigger] r.state.last_vote@[i]).0@
                    == self.state.last_vote@[i].0@ && r.state.last_vote@[i].1 == self.state.last_vote@[i].1,
    {
        let vote_mode = match &self.state.vote_mode {
            VoteMode::Active { votes } => VoteMode::Active { votes: votes.copy() },
            VoteMode::Inactive => VoteMode::Inactive,
        };
        let mut last_vote: Vec<(String, usize)> = Vec::new();
        let mut i: usize = 0;
        while i < self.state.last_vote.len()
            invariant
                i <= self.state.last_vote@.len(),
                last_vote@.len() == i,
                forall|j: int|
                    0 <= j < i ==> (#[trigger] last_vote@[j]).0@ == self.state.last_vote@[j].0@
                        && last_vote@[j].1 == self.state.last_vote@[j].1,
            decreases self.state.last_vote@.len() - i,
        {
            last_vote.push((self.state.last_vote[i].0.clone(), self.state.last_vote[i].1));
            i = i + 1;
        }
        VoteSerialized { state: VoteState { vote_mode, last_vote } }
    }

    /// The bot's command tree.
    pub fn commands() -> (r: BotCommands<VoteCommand>)
        ensures
            r.commands@.len() == 1,
            is_literal(r.commands@[0], "!vote"@, 3),
            literal_runs(child(r.commands@[0], 0), "start"@, AuthorityLevel::Broadcaster, VoteCommand::Start),
            literal_runs(child(r.commands@[0], 1), "finish"@, AuthorityLevel::Broadcaster, VoteCommand::Finish),
            is_argument(child(r.commands@[0], 2), ArgumentType::Line),
            runs(child(child(r.commands@[0], 2), 0), AuthorityLevel::Broadcaster, VoteCommand::Vote),
    {
        let b = AuthorityLevel::Broadcaster;
        let root = literal_node(
            "!vote",
            vec![
                literal_node("start", vec![final_node(b, VoteCommand::Start)]),
                literal_node("finish", vec![final_node(b, VoteCommand::Finish)]),
                line_node(final_node(b, VoteCommand::Vote)),
            ],
        );
        BotCommands { commands: vec![root] }
    }
}

/// Counts the votes: each answer once, in order, with the number of
/// voters who gave it.
pub fn count_votes(votes: &TextTable) -> (c: Vec<(String, usize)>)
    ensures
        counts_votes(c@.map_values(|e: (String, usize)| (e.0@, e.1)), votes@),
{
    let ghost vs = votes@;
    let mut c: Vec<(String, usize)> = Vec::new();
    let n = votes.len();
    let mut i: usize = 0;
    proof {
        assert(c@.map_values(|e: (String, usize)| (e.0@, e.1)) =~= Seq::<(Seq<char>, usize)>::empty());
        assert forall|x: Seq<char>| #[trigger] count_of(vs.take(0), x) == 0 by {}
    }
    while i < n
        invariant
            i <= n,
            n == vs.len(),
            vs == votes@,
            counts_votes(c@.map_values(|e: (String, usize)| (e.0@, e.1)), vs.take(i as int)),
            forall|k: int| 0 <= k < c@.len() ==> c@[k].1 <= i,
        decreases n - i,
    {
        let ghost cv = c@.map_values(|e: (String, usize)| (e.0@, e.1));
        let ghost t = vs.take(i as int);
        let (_, answer) = votes.entry(i);
        proof {
            assert(vs.take(i + 1).drop_last() =~= t);
            assert(vs.take(i + 1).last() == vs[i as int]);
            assert forall|a: int, b: int| 0 <= a < b < cv.len() implies #[trigger] cv[a].0 != #[trigger] cv[b].0 by {
                lemma_text_lt_irreflexive(cv[a].0);
            }
        }
        // The first answer that does not come before this one.
        let mut p: usize = 0;
        while p < c.len() && less_text(c[p].0.as_str(), answer.as_str())
            invariant
                p <= c@.len(),
                cv == c@.map_values(|e: (String, usize)| (e.0@, e.1)),
                forall|k: int| 0 <= k < p ==> text_lt(#[trigger] cv[k].0, answer@),
            decreases c@.len() - p,
        {
            p = p + 1;
        }
        let found = p < c.len() && crate::text::str_eq(c[p].0.as_str(), answer.as_str());
        proof {
            lemma_key_index(cv, answer@, 0);
            if p < c@.len() {
                lemma_text_lt_total(cv[p as int].0, answer@);
                assert forall|k: int| p < k < cv.len() implies !(#[trigger] cv[k].0 == answer@) by {
                    if cv[k].0 == answer@ {
                        assert(text_lt(cv[p as int].0, cv[k].0));
                    }
                }
            }
        }
        if found {
            let k = c[p].1;
            let name = c[p].0.clone();
            c.set(p, (name, k + 1));
            proof {
                crate::table::lemma_key_index_at(cv, p as int);
                let cv2 = c@.map_values(|e: (String, usize)| (e.0@, e.1));
                assert(cv2 =~= cv.update(p as int, (answer@, (k + 1) as usize)));
                assert(cv2 == upsert(cv, answer@, (k + 1) as usize));
                lemma_upsert_unique(cv, answer@, (k + 1) as usize);
                assert(lookup(cv, answer@) == Some(k));
                assert(lookup(cv2, answer@) == Some((count_of(t, answer@) + 1) as usize));
                assert forall|a: int, b: int| 0 <= a < b < cv2.len() implies text_lt(
                    #[trigger] cv2[a].0,
                    #[trigger] cv2[b].0,
                ) by {
                    assert(cv2[a].0 == cv[a].0 && cv2[b].0 == cv[b].0);
                }
            }
        } else {
            proof {
                assert(!has_key(cv, answer@)) by {
                    if has_key(cv, answer@) {
                        let j = key_index(cv, answer@, 0)->0;
                        if j < p {
                            lemma_text_lt_irreflexive(answer@);
                        }
                    }
                }
            }
            c.insert(p, (answer, 1));
            proof {
                let cv2 = c@.map_values(|e: (String, usize)| (e.0@, e.1));
                assert(cv2 =~= cv.insert(p as int, (answer@, 1usize)));
                lemma_insert_lookup(cv, p as int, (answer@, 1usize));
                assert(count_of(t, answer@) == 0);
                assert(lookup(cv2, answer@) == Some((count_of(t, answer@) + 1) as usize));
                assert forall|a: int, b: int| 0 <= a < b < cv2.len() implies text_lt(
                    #[trigger] cv2[a].0,
                    #[trigger] cv2[b].0,
                ) by {
                    if a < p && b < p {
                        assert(cv2[a] == cv[a] && cv2[b] == cv[b]);
                    } else if a < p && b == p {
                        assert(cv2[a] == cv[a]);
                    } else if a < p {
                        assert(cv2[a] == cv[a] && cv2[b] == cv[b - 1]);
                        lemma_text_lt_total(cv[p as int].0, answer@);
                        if b - 1 > p {
                            lemma_text_lt_transitive(cv[a].0, cv[p as int].0, cv[b - 1].0);
                        }
                    } else if a == p {
                        assert(cv2[b] == cv[b - 1]);
                        lemma_text_lt_total(cv[p as int].0, answer@);
                        if b - 1 > p {
                            lemma_text_lt_transitive(answer@, cv[p as int].0, cv[b - 1].0);
                        }
                    } else {
                        assert(cv2[a] == cv[a - 1] && cv2[b] == cv[b - 1]);
                    }
                }
            }
        }
        proof {
            let cv2 = c@.map_values(|e: (String, usize)| (e.0@, e.1));
            let t2 = vs.take(i + 1);
            assert(answer@ == vs[i as int].1);
            assert forall|y: Seq<char>| y != answer@ implies #[trigger] lookup(cv2, y) == lookup(cv, y) by {}
            assert forall|x: Seq<char>| #[trigger] count_of(t2, x) == match lookup(cv2, x) {
                Some(k) => k as nat,
                None => 0nat,
            } by {
                assert(count_of(t2, x) == count_of(t, x) + if vs[i as int].1 == x {
                    1nat
                } else {
                    0nat
                });
                if x != answer@ {
                    assert(lookup(cv2, x) == lookup(cv, x));
                }
            }
            assert forall|k: int| 0 <= k < cv2.len() implies #[trigger] cv2[k].1 > 0 by {
                if found {
                    assert(cv2[k].1 == cv.update(p as int, (answer@, (cv[p as int].1 + 1) as usize))[k].1);
                } else {
                    if k < p {
                        assert(cv2[k] == cv[k]);
                    } else if k > p {
                        assert(cv2[k] == cv[k - 1]);
                    }
                }
            }
        }
        i = i + 1;
    }
    proof {
        assert(vs.take(n as int) =~= vs);
    }
    c
}

} // verus!
