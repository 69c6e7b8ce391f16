//! Command trees: a chat message is matched against literal words,
//! arguments and final nodes that carry the command to run.

use vstd::prelude::*;
use crate::text::{
    byte_suffix, copy_strings, first_word, first_word_of, has_prefix, lemma_first_word_boundary,
    lemma_trim_no_leading_ws, skip_ws, starts_with, str_eq, suffix_from_byte, trim, trim_seq,
    utf8_len, utf8_length,
};
use vstd::string::StrSliceExecFns;

verus! {

/// How much of the message an argument node takes.
#[derive(Clone, Copy, PartialEq, Eq, Debug, Structural)]
pub enum ArgumentType {
    /// One whitespace-separated word.
    Word,
    /// The rest of the line.
    Line,
}

/// Who may run a command, from the least to the most trusted.
#[derive(Clone, Copy, PartialEq, Eq, Debug, Structural)]
pub enum AuthorityLevel {
    Viewer,
    Moderator,
    Broadcaster,
}

/// The rank of an authority level: viewers 0, moderators 1, broadcasters 2.
pub open spec fn rank(level: AuthorityLevel) -> int {
    match level {
        AuthorityLevel::Viewer => 0,
        AuthorityLevel::Moderator => 1,
        AuthorityLevel::Broadcaster => 2,
    }
}

/// The authority that a single chat badge grants.
pub open spec fn badge_level(badge: Seq<char>) -> AuthorityLevel {
    if badge == "broadcaster"@ {
        AuthorityLevel::Broadcaster
    } else if badge == "moderator"@ {
        AuthorityLevel::Moderator
    } else {
        AuthorityLevel::Viewer
    }
}

/// The higher of two authority levels.
pub open spec fn max_level(a: AuthorityLevel, b: AuthorityLevel) -> AuthorityLevel {
    if rank(a) >= rank(b) {
        a
    } else {
        b
    }
}

/// The highest authority granted by any of the badges (viewer for none).
pub open spec fn badges_level(badges: Seq<Seq<char>>) -> AuthorityLevel
    decreases badges.len(),
{
    if badges.len() == 0 {
        AuthorityLevel::Viewer
    } else {
        max_level(badges_level(badges.drop_last()), badge_level(badges.last()))
    }
}

/// A sender with the broadcaster's badge has the broadcaster's authority.
pub proof fn law_broadcaster_badge(badges: Seq<Seq<char>>)
    requires
        badges.contains("broadcaster"@),
    ensures
        badges_level(badges) == AuthorityLevel::Broadcaster,
    decreases badges.len(),
{
    if badges.last() != "broadcaster"@ {
        let i = choose|i: int| 0 <= i < badges.len() && #[trigger] badges[i] == "broadcaster"@;
        assert(badges.drop_last()[i] == "broadcaster"@);
        law_broadcaster_badge(badges.drop_last());
    }
}

/// More badges never lower the authority.
pub proof fn law_badges_monotone(badges: Seq<Seq<char>>, extra: Seq<char>)
    ensures
        rank(badges_level(badges.push(extra))) >= rank(badges_level(badges)),
{
    assert(badges.push(extra).drop_last() =~= badges);
}

impl AuthorityLevel {
    /// The rank of this level as a number.
    pub fn level(&self) -> (r: u8)
        ensures
            r == rank(*self),
    {
        match self {
            AuthorityLevel::Viewer => 0,
            AuthorityLevel::Moderator => 1,
            AuthorityLevel::Broadcaster => 2,
        }
    }

    /// The authority that the badge named `badge` grants.
    pub fn from_badge(badge: &str) -> (r: AuthorityLevel)
        ensures
            r == badge_level(badge@),
    {
        if str_eq(badge, "broadcaster") {
            AuthorityLevel::Broadcaster
        } else if str_eq(badge, "moderator") {
            AuthorityLevel::Moderator
        } else {
            AuthorityLevel::Viewer
        }
    }

    /// The highest authority that any of the named badges grants.
    pub fn from_badges(badges: &Vec<String>) -> (r: AuthorityLevel)
        ensures
            r == badges_level(badges.deep_view()),
    {
        let mut level = AuthorityLevel::Viewer;
        let mut i: usize = 0;
        while i < badges.len()
            invariant
                i <= badges.len(),
                level == badges_level(badges.deep_view().subrange(0, i as int)),
            decreases badges.len() - i,
        {
            let b = AuthorityLevel::from_badge(badges[i].as_str());
            proof {
                assert(badges.deep_view().subrange(0, i + 1).drop_last() =~= badges.deep_view().subrange(
                    0,
                    i as int,
                ));
            }
            if b.level() > level.level() {
                level = b;
            }
            i = i + 1;
        }
        proof {
            assert(badges.deep_view().subrange(0, badges.len() as int) =~= badges.deep_view());
        }
        level
    }
}

/// Where a message comes from.
#[derive(Clone, Copy, PartialEq, Eq, Debug, Structural)]
pub enum MessageOrigin {
    Chat,
    Console,
}

/// Who sent a message.
pub struct Sender {
    pub name: String,
    pub origin: MessageOrigin,
}

/// A chat message as the command trees read it.
pub struct CommandMessage {
    pub sender_name: String,
    pub message_text: String,
    /// The names of the sender's chat badges.
    pub badges: Vec<String>,
}

/// One node of a command tree; `C` identifies the command that a final node
/// runs.
pub enum CommandNode<C> {
    /// Takes an argument and passes the rest of the message on.
    ArgumentNode { argument_type: ArgumentType, child_node: Box<CommandNode<C>> },
    /// Takes a fixed word and tries its children in order on the rest.
    LiteralNode { literal: String, child_nodes: Vec<CommandNode<C>> },
    /// Matches the end of the message.
    FinalNode { authority_level: AuthorityLevel, command: C },
}

/// What matching `msg` against `node` gives, with `args` collected so far:
/// the final node reached and the arguments, or `None`.
pub open spec fn check_spec<C>(node: CommandNode<C>, msg: Seq<char>, args: Seq<Seq<char>>) -> Option<
    (CommandNode<C>, Seq<Seq<char>>),
>
    decreases node, 0int,
{
    match node {
        CommandNode::ArgumentNode { argument_type, child_node } => {
            match argument_type {
                ArgumentType::Word => match first_word(msg) {
                    Some(a) => match byte_suffix(msg, utf8_len(a)) {
                        Some(rest) => check_spec(*child_node, trim_seq(rest), args.push(a)),
                        None => None,
                    },
                    None => None,
                },
                ArgumentType::Line => check_spec(*child_node, Seq::empty(), args.push(msg)),
            }
        },
        CommandNode::LiteralNode { literal, child_nodes } => {
            if has_prefix(msg, literal@) {
                check_children(
                    child_nodes,
                    trim_seq(msg.subrange(literal@.len() as int, msg.len() as int)),
                    args,
                    0,
                )
            } else {
                None
            }
        },
        CommandNode::FinalNode { .. } => {
            if msg.len() == 0 {
                Some((node, args))
            } else {
                None
            }
        },
    }
}

/// The first match among the children from the `i`-th on.
pub open spec fn check_children<C>(
    children: Vec<CommandNode<C>>,
    msg: Seq<char>,
    args: Seq<Seq<char>>,
    i: int,
) -> Option<(CommandNode<C>, Seq<Seq<char>>)>
    decreases children, children@.len() - i,
{
    if 0 <= i < children@.len() {
        proof {
            assert(decreases_to!(children => children@));
            assert(decreases_to!(children@ => children@[i]));
        }
        match check_spec(children@[i], msg, args) {
            Some(r) => Some(r),
            None => check_children(children, msg, args, i + 1),
        }
    } else {
        None
    }
}

/// `target` is a final node below `node`, on a path through `k` argument
/// nodes.
pub open spec fn path_to<C>(node: CommandNode<C>, target: CommandNode<C>, k: nat) -> bool
    decreases node, 0int,
{
    match node {
        CommandNode::ArgumentNode { child_node, .. } => k > 0 && path_to(*child_node, target, (k - 1) as nat),
        CommandNode::LiteralNode { child_nodes, .. } => path_in_children(child_nodes, target, k, 0),
        CommandNode::FinalNode { .. } => k == 0 && target == node,
    }
}

/// `target` is a final node below one of the children from the `i`-th on,
/// on a path through `k` argument nodes.
pub open spec fn path_in_children<C>(children: Vec<CommandNode<C>>, target: CommandNode<C>, k: nat, i: int) -> bool
    decreases children, children@.len() - i,
{
    if 0 <= i < children@.len() {
        proof {
            assert(decreases_to!(children => children@));
            assert(decreases_to!(children@ => children@[i]));
        }
        path_to(children@[i], target, k) || path_in_children(children, target, k, i + 1)
    } else {
        false
    }
}

/// What a match gives, where it gives one: a final node of the tree, with
/// the arguments collected before kept in front and one more argument for
/// each argument node on the path down to it.
pub open spec fn reaches_final<C>(
    node: CommandNode<C>,
    args: Seq<Seq<char>>,
    result: Option<(CommandNode<C>, Seq<Seq<char>>)>,
) -> bool {
    match result {
        Some((n, out)) => {
            &&& n is FinalNode
            &&& args.len() <= out.len()
            &&& out.subrange(0, args.len() as int) == args
            &&& path_to(node, n, (out.len() - args.len()) as nat)
        },
        None => true,
    }
}

/// Matching a message against a command tree ends at a final node of that
/// tree; the arguments collected before stay in front, and one argument is
/// added for each argument node on the path from the tree's root down to
/// that final node.
pub proof fn law_check_node_reaches_final<C>(node: CommandNode<C>, msg: Seq<char>, args: Seq<Seq<char>>)
    ensures
        reaches_final(node, args, check_spec(node, msg, args)),
    decreases node, 0int,
{
    match node {
        CommandNode::ArgumentNode { argument_type, child_node } => {
            let next = match argument_type {
                ArgumentType::Word => match first_word(msg) {
                    Some(a) => match byte_suffix(msg, utf8_len(a)) {
                        Some(rest) => Some((trim_seq(rest), a)),
                        None => None,
                    },
                    None => None,
                },
                ArgumentType::Line => Some((Seq::<char>::empty(), msg)),
            };
            if let Some((m, a)) = next {
                law_check_node_reaches_final(*child_node, m, args.push(a));
                if let Some((n, out)) = check_spec(*child_node, m, args.push(a)) {
                    assert(out.subrange(0, args.len() as int) =~= out.subrange(0, args.len() + 1int).subrange(
                        0,
                        args.len() as int,
                    ));
                    assert(args.push(a).subrange(0, args.len() as int) =~= args);
                    assert(((out.len() - args.len()) as nat - 1) as nat == (out.len() - (args.len() + 1)) as nat);
                }
            }
        },
        CommandNode::LiteralNode { literal, child_nodes } => {
            if has_prefix(msg, literal@) {
                lemma_children_reach_final(
                    child_nodes,
                    trim_seq(msg.subrange(literal@.len() as int, msg.len() as int)),
                    args,
                    0,
                );
            }
        },
        CommandNode::FinalNode { .. } => {
            assert(args.subrange(0, args.len() as int) =~= args);
        },
    }
}

/// `law_check_node_reaches_final` for the children from the `i`-th on.
pub proof fn lemma_children_reach_final<C>(
    children: Vec<CommandNode<C>>,
    msg: Seq<char>,
    args: Seq<Seq<char>>,
    i: int,
)
    ensures
        check_children(children, msg, args, i) matches Some((n, out)) ==> {
            &&& n is FinalNode
            &&& args.len() <= out.len()
            &&& out.subrange(0, args.len() as int) == args
            &&& path_in_children(children, n, (out.len() - args.len()) as nat, i)
        },
    decreases children, children@.len() - i,
{
    if 0 <= i < children@.len() {
        assert(decreases_to!(children => children@));
        assert(decreases_to!(children@ => children@[i]));
        law_check_node_reaches_final(children@[i], msg, args);
        lemma_children_reach_final(children, msg, args, i + 1);
    }
}

/// Matching would not slice the message inside a character: only a word
/// argument at the top of the tree can meet a message that begins with
/// whitespace.
pub open spec fn node_safe<C>(node: CommandNode<C>, msg: Seq<char>) -> bool {
    match node {
        CommandNode::ArgumentNode { argument_type: ArgumentType::Word, .. } => match first_word(msg) {
            Some(a) => byte_suffix(msg, utf8_len(a)) is Some,
            None => true,
        },
        _ => true,
    }
}

/// A message that does not begin with whitespace is safe for every node.
pub proof fn lemma_trimmed_safe<C>(node: CommandNode<C>, msg: Seq<char>)
    requires
        skip_ws(msg, 0) == 0,
    ensures
        node_safe(node, msg),
{
    if first_word(msg) is Some {
        lemma_first_word_boundary(msg);
    }
}

impl<C> CommandNode<C> {
    /// Matches `message` against this node, with `arguments` collected so
    /// far; returns the final node reached and all arguments.
    pub fn check_node(&self, message: &str, arguments: Vec<String>) -> (r: Option<
        (&CommandNode<C>, Vec<String>),
    >)
        requires
            node_safe(*self, message@),
        ensures
            match check_spec(*self, message@, arguments.deep_view()) {
                Some((n, a)) => r matches Some((rn, ra)) && *rn == n && ra.deep_view() == a,
                None => r is None,
            },
        decreases self,
    {
        match self {
            CommandNode::ArgumentNode { argument_type, child_node } => {
                let is_word = match argument_type {
                    ArgumentType::Word => true,
                    ArgumentType::Line => false,
                };
                let argument = if is_word {
                    first_word_of(message)
                } else {
                    Some(message)
                };
                match argument {
                    Some(argument) => {
                        let rest = if is_word {
                            let k = utf8_length(argument);
                            match suffix_from_byte(message, k) {
                                Some(rest) => trim(rest),
                                None => {
                                    return None;
                                },
                            }
                        } else {
                            proof {
                                assert(message@.subrange(0, 0) =~= Seq::<char>::empty());
                                assert(trim_seq(Seq::<char>::empty()) =~= Seq::<char>::empty());
                            }
                            message.substring_char(0, 0)
                        };
                        let mut arguments = arguments;
                        let ghost old_args = arguments.deep_view();
                        arguments.push(argument.to_owned());
                        proof {
                            assert(arguments.deep_view() =~= old_args.push(argument@));
                            lemma_trim_no_leading_ws(rest@);
                            if is_word {
                                lemma_trim_no_leading_ws(
                                    byte_suffix(message@, utf8_len(argument@))->0,
                                );
                            } else {
                                assert(skip_ws(rest@, 0) == 0);
                            }
                            lemma_trimmed_safe(**child_node, rest@);
                        }
                        child_node.check_node(rest, arguments)
                    },
                    None => None,
                }
            },
            CommandNode::LiteralNode { literal, child_nodes } => {
                if starts_with(message, literal.as_str()) {
                    let len = message.unicode_len();
                    let lit_len = literal.as_str().unicode_len();
                    let rest = trim(message.substring_char(lit_len, len));
                    let ghost av = arguments.deep_view();
                    proof {
                        lemma_trim_no_leading_ws(message@.subrange(lit_len as int, len as int));
                        assert(check_spec(*self, message@, av) == check_children(
                            *child_nodes,
                            rest@,
                            av,
                            0,
                        ));
                    }
                    let mut i: usize = 0;
                    while i < child_nodes.len()
                        invariant
                            i <= child_nodes.len(),
                            av == arguments.deep_view(),
                            lit_len <= len,
                            len == message@.len(),
                            check_spec(*self, message@, av) == check_children(*child_nodes, rest@, av, 0),
                            *self == (CommandNode::LiteralNode { literal: *literal, child_nodes: *child_nodes }),
                            skip_ws(rest@, 0) == 0,
                            rest@ == trim_seq(message@.subrange(lit_len as int, len as int)),
                            check_children(*child_nodes, rest@, arguments.deep_view(), 0)
                                == check_children(*child_nodes, rest@, arguments.deep_view(), i as int),
                        decreases child_nodes.len() - i,
                    {
                        proof {
                            lemma_trimmed_safe(child_nodes@[i as int], rest@);
                            assert(decreases_to!(*child_nodes => child_nodes@));
                            assert(decreases_to!(child_nodes@ => child_nodes@[i as int]));
                            assert(decreases_to!(*self => child_nodes@[i as int]));
                        }
                        let args = copy_strings(&arguments);
                        match child_nodes[i].check_node(rest, args) {
                            Some(found) => {
                                return Some(found);
                            },
                            None => {},
                        }
                        i = i + 1;
                    }
                    None
                } else {
                    None
                }
            },
            CommandNode::FinalNode { .. } => {
                if message.is_empty() {
                    Some((self, arguments))
                } else {
                    None
                }
            },
        }
    }
}

} // verus!

verus! {

/// Whether a sender whose badges grant `sender` may run a command that
/// needs `required`.
pub open spec fn authorized(sender: AuthorityLevel, required: AuthorityLevel) -> bool {
    rank(sender) >= rank(required)
}

/// Whether the sender of `message` may run a command that needs
/// `authority_level`.
pub fn check_authority(authority_level: &AuthorityLevel, message: &CommandMessage) -> (b: bool)
    ensures
        b == authorized(badges_level(message.badges.deep_view()), *authority_level),
{
    AuthorityLevel::from_badges(&message.badges).level() >= authority_level.level()
}

/// The commands, with their arguments, that the top-level nodes `roots`
/// reach on `msg` and that a sender with authority `level` may run, in the
/// order of the roots.
pub open spec fn find_spec<C>(roots: Seq<CommandNode<C>>, msg: Seq<char>, level: AuthorityLevel) -> Seq<
    (C, Seq<Seq<char>>),
>
    decreases roots.len(),
{
    if roots.len() == 0 {
        Seq::empty()
    } else {
        let prev = find_spec(roots.drop_last(), msg, level);
        match check_spec(roots.last(), msg, Seq::empty()) {
            Some((CommandNode::FinalNode { authority_level, command }, args)) => {
                if authorized(level, authority_level) {
                    prev.push((command, args))
                } else {
                    prev
                }
            },
            _ => prev,
        }
    }
}

/// `n` is the literal `s` with `k` children.
pub open spec fn is_literal<C>(n: CommandNode<C>, s: Seq<char>, k: nat) -> bool {
    n matches CommandNode::LiteralNode { literal, child_nodes } && literal@ == s && child_nodes@.len() == k
}

/// The `i`-th child of a literal, or the child of an argument.
pub open spec fn child<C>(n: CommandNode<C>, i: int) -> CommandNode<C> {
    match n {
        CommandNode::LiteralNode { child_nodes, .. } => child_nodes@[i],
        CommandNode::ArgumentNode { child_node, .. } => *child_node,
        CommandNode::FinalNode { .. } => n,
    }
}

/// `n` is an argument of type `t`.
pub open spec fn is_argument<C>(n: CommandNode<C>, t: ArgumentType) -> bool {
    n matches CommandNode::ArgumentNode { argument_type, .. } && argument_type == t
}

/// `n` runs `c` for senders with authority `level`.
pub open spec fn runs<C>(n: CommandNode<C>, level: AuthorityLevel, c: C) -> bool {
    n == CommandNode::FinalNode { authority_level: level, command: c }
}

/// `n` is a word argument, then `c`.
pub open spec fn word_runs<C>(n: CommandNode<C>, level: AuthorityLevel, c: C) -> bool {
    is_argument(n, ArgumentType::Word) && runs(child(n, 0), level, c)
}

/// `n` is a word argument, another word, then `c`.
pub open spec fn two_words_run<C>(n: CommandNode<C>, level: AuthorityLevel, c: C) -> bool {
    is_argument(n, ArgumentType::Word) && word_runs(child(n, 0), level, c)
}

/// `n` is a word argument, the rest of the line, then `c`.
pub open spec fn word_line_runs<C>(n: CommandNode<C>, level: AuthorityLevel, c: C) -> bool {
    is_argument(n, ArgumentType::Word) && is_argument(child(n, 0), ArgumentType::Line) && runs(
        child(child(n, 0), 0),
        level,
        c,
    )
}

/// `n` is the literal `s` with one child that runs `c`.
pub open spec fn literal_runs<C>(n: CommandNode<C>, s: Seq<char>, level: AuthorityLevel, c: C) -> bool {
    is_literal(n, s, 1) && runs(child(n, 0), level, c)
}

/// A final node.
pub fn final_node<C>(level: AuthorityLevel, command: C) -> (r: CommandNode<C>)
    ensures
        r == (CommandNode::FinalNode { authority_level: level, command }),
{
    CommandNode::FinalNode { authority_level: level, command }
}

/// A word argument followed by `child`.
pub fn word_node<C>(child: CommandNode<C>) -> (r: CommandNode<C>)
    ensures
        r == (CommandNode::ArgumentNode { argument_type: ArgumentType::Word, child_node: Box::new(child) }),
{
    CommandNode::ArgumentNode { argument_type: ArgumentType::Word, child_node: Box::new(child) }
}

/// A rest-of-line argument followed by `child`.
pub fn line_node<C>(child: CommandNode<C>) -> (r: CommandNode<C>)
    ensures
        r == (CommandNode::ArgumentNode { argument_type: ArgumentType::Line, child_node: Box::new(child) }),
{
    CommandNode::ArgumentNode { argument_type: ArgumentType::Line, child_node: Box::new(child) }
}

/// A literal followed by `children`.
pub fn literal_node<C>(literal: &str, children: Vec<CommandNode<C>>) -> (r: CommandNode<C>)
    ensures
        r matches CommandNode::LiteralNode { literal: l, child_nodes } && l@ == literal@ && child_nodes
            == children,
{
    CommandNode::LiteralNode { literal: literal.to_owned(), child_nodes: children }
}

/// The commands of a bot.
pub struct BotCommands<C> {
    pub commands: Vec<CommandNode<C>>,
}

impl<C: Copy> BotCommands<C> {
    /// Every command that `message` reaches and that its sender may run,
    /// with the arguments taken from the message.
    pub fn find_commands(&self, message: &CommandMessage) -> (r: Vec<(C, Vec<String>)>)
        requires
            forall|i: int|
                0 <= i < self.commands@.len() ==> node_safe(
                    #[trigger] self.commands@[i],
                    message.message_text@,
                ),
        ensures
            r@.len() == find_spec(
                self.commands@,
                message.message_text@,
                badges_level(message.badges.deep_view()),
            ).len(),
            forall|i: int|
                0 <= i < r@.len() ==> {
                    let f = find_spec(
                        self.commands@,
                        message.message_text@,
                        badges_level(message.badges.deep_view()),
                    )[i];
                    &&& (#[trigger] r@[i]).0 == f.0
                    &&& r@[i].1.deep_view() == f.1
                },
    {
        let ghost level = badges_level(message.badges.deep_view());
        let ghost msg = message.message_text@;
        let mut found: Vec<(C, Vec<String>)> = Vec::new();
        let mut i: usize = 0;
        while i < self.commands.len()
            invariant
                i <= self.commands@.len(),
                level == badges_level(message.badges.deep_view()),
                msg == message.message_text@,
                forall|j: int|
                    0 <= j < self.commands@.len() ==> node_safe(
                        #[trigger] self.commands@[j],
                        message.message_text@,
                    ),
                found@.len() == find_spec(self.commands@.subrange(0, i as int), msg, level).len(),
                forall|j: int|
                    0 <= j < found@.len() ==> {
                        let f = find_spec(self.commands@.subrange(0, i as int), msg, level)[j];
                        &&& (#[trigger] found@[j]).0 == f.0
                        &&& found@[j].1.deep_view() == f.1
                    },
            decreases self.commands@.len() - i,
        {
            let ghost prefix = self.commands@.subrange(0, i + 1);
            proof {
                assert(prefix.drop_last() =~= self.commands@.subrange(0, i as int));
                assert(prefix.last() == self.commands@[i as int]);
            }
            let empty: Vec<String> = Vec::new();
            proof {
                assert(empty.deep_view() =~= Seq::<Seq<char>>::empty());
            }
            match self.commands[i].check_node(message.message_text.as_str(), empty) {
                Some((node, arguments)) => {
                    match node {
                        CommandNode::FinalNode { authority_level, command } => {
                            if check_authority(authority_level, message) {
                                found.push((*command, arguments));
                            }
                        },
                        _ => {},
                    }
                },
                None => {},
            }
            i = i + 1;
        }
        proof {
            assert(self.commands@.subrange(0, self.commands@.len() as int) =~= self.commands@);
        }
        found
    }
}

} // verus!
