//! Completion of console commands: the words that can follow what has
//! been typed, read from a tree of literals, arguments and choices.

use vstd::prelude::*;
use crate::commands::{ArgumentType, CommandNode};
use crate::text::{
    byte_suffix, first_word, first_word_of, has_prefix, lemma_first_word_boundary, lemma_trim_no_leading_ws,
    skip_ws, starts_with, str_eq, suffix_from_byte, trim, trim_seq, utf8_len, utf8_length,
};
use vstd::string::StrSliceExecFns;

verus! {

/// One node of a completion tree.
pub enum CompletionNode {
    /// One of fixed words, then the children.
    Literal { literals: Vec<String>, child_nodes: Vec<CompletionNode> },
    /// An argument, then the children.
    Argument { argument_type: ArgumentType, child_nodes: Vec<CompletionNode> },
    /// One of given values, then the children.
    ArgumentChoice { choices: Vec<String>, child_nodes: Vec<CompletionNode> },
    Final,
}

/// The words among `words` that begin with `msg` and are longer.
pub open spec fn extensions(words: Seq<Seq<char>>, msg: Seq<char>) -> Seq<Seq<char>>
    decreases words.len(),
{
    if words.len() == 0 {
        Seq::empty()
    } else {
        let prev = extensions(words.drop_last(), msg);
        if has_prefix(words.last(), msg) && words.last() != msg {
            prev.push(words.last())
        } else {
            prev
        }
    }
}

/// Every word offered extends what was typed.
pub proof fn law_offers_extend(words: Seq<Seq<char>>, msg: Seq<char>)
    ensures
        forall|i: int|
            0 <= i < extensions(words, msg).len() ==> has_prefix(#[trigger] extensions(words, msg)[i], msg)
                && extensions(words, msg)[i] != msg,
    decreases words.len(),
{
    if words.len() > 0 {
        law_offers_extend(words.drop_last(), msg);
        let prev = extensions(words.drop_last(), msg);
        assert forall|i: int| 0 <= i < extensions(words, msg).len() implies has_prefix(
            #[trigger] extensions(words, msg)[i],
            msg,
        ) && extensions(words, msg)[i] != msg by {
            if i < prev.len() {
                assert(extensions(words, msg)[i] == prev[i]);
            }
        }
    }
}

/// The index of the first word of `words` from the `i`-th on that begins
/// `msg`.
pub open spec fn first_prefix(words: Seq<Seq<char>>, msg: Seq<char>, i: int) -> Option<int>
    decreases words.len() - i,
{
    if 0 <= i < words.len() {
        if has_prefix(msg, words[i]) {
            Some(i)
        } else {
            first_prefix(words, msg, i + 1)
        }
    } else {
        None
    }
}

/// The completions that `node` offers for `msg`.
pub open spec fn complete_spec(node: CompletionNode, msg: Seq<char>) -> Seq<Seq<char>>
    decreases node, 0int,
{
    match node {
        CompletionNode::Literal { literals, child_nodes } => words_then(
            literals.deep_view(),
            child_nodes,
            msg,
        ),
        CompletionNode::ArgumentChoice { choices, child_nodes } => words_then(
            choices.deep_view(),
            child_nodes,
            msg,
        ),
        CompletionNode::Argument { argument_type, child_nodes } => match argument_type {
            ArgumentType::Word => match first_word(msg) {
                Some(a) => match byte_suffix(msg, utf8_len(a)) {
                    Some(rest) => complete_children(child_nodes, trim_seq(rest), 0),
                    None => Seq::empty(),
                },
                None => Seq::empty(),
            },
            ArgumentType::Line => Seq::empty(),
        },
        CompletionNode::Final => Seq::empty(),
    }
}

/// The completions of a node of fixed words: the words that extend
/// `msg`, then, after the first word that begins `msg`, what the children
/// offer for the rest.
pub open spec fn words_then(words: Seq<Seq<char>>, children: Vec<CompletionNode>, msg: Seq<char>) -> Seq<
    Seq<char>,
>
    decreases children, children@.len() + 1,
{
    extensions(words, msg) + match first_prefix(words, msg, 0) {
        Some(j) => complete_children(
            children,
            trim_seq(msg.subrange(words[j].len() as int, msg.len() as int)),
            0,
        ),
        None => Seq::empty(),
    }
}

/// What the children from the `i`-th on offer, in order.
pub open spec fn complete_children(children: Vec<CompletionNode>, msg: Seq<char>, i: int) -> Seq<
    Seq<char>,
>
    decreases children, children@.len() - i,
{
    if 0 <= i < children@.len() {
        proof {
            assert(decreases_to!(children => children@));
            assert(decreases_to!(children@ => children@[i]));
        }
        complete_spec(children@[i], msg) + complete_children(children, msg, i + 1)
    } else {
        Seq::empty()
    }
}

/// Completing would not slice a message inside a character: only a word
/// argument at the top of the tree can meet a message that begins with
/// whitespace.
pub open spec fn completion_safe(node: CompletionNode, msg: Seq<char>) -> bool {
    match node {
        CompletionNode::Argument { argument_type: ArgumentType::Word, .. } => match first_word(msg) {
            Some(a) => byte_suffix(msg, utf8_len(a)) is Some,
            None => true,
        },
        _ => true,
    }
}

/// A message that does not begin with whitespace is safe for every node.
pub proof fn lemma_trimmed_completion_safe(node: CompletionNode, msg: Seq<char>)
    requires
        skip_ws(msg, 0) == 0,
    ensures
        completion_safe(node, msg),
{
    if first_word(msg) is Some {
        lemma_first_word_boundary(msg);
    }
}

/// The words of `words` that extend `msg`, in order.
fn extending_words(words: &Vec<String>, msg: &str) -> (r: Vec<String>)
    ensures
        r.deep_view() == extensions(words.deep_view(), msg@),
{
    let ghost w = words.deep_view();
    let mut r: Vec<String> = Vec::new();
    let mut i: usize = 0;
    while i < words.len()
        invariant
            i <= w.len(),
            w == words.deep_view(),
            r.deep_view() == extensions(w.take(i as int), msg@),
        decreases w.len() - i,
    {
        proof {
            assert(w.take(i + 1).drop_last() =~= w.take(i as int));
        }
        let word = words[i].as_str();
        if starts_with(word, msg) && !str_eq(word, msg) {
            let ghost before = r.deep_view();
            r.push(word.to_owned());
            proof {
                assert(r.deep_view() =~= before.push(word@));
            }
        }
        i = i + 1;
    }
    proof {
        assert(w.take(w.len() as int) =~= w);
    }
    r
}

/// The index of the first word that begins `msg`.
fn first_prefix_of(words: &Vec<String>, msg: &str) -> (r: Option<usize>)
    ensures
        match first_prefix(words.deep_view(), msg@, 0) {
            Some(j) => r matches Some(k) && k == j,
            None => r is None,
        },
        r matches Some(k) ==> k < words@.len() && has_prefix(msg@, words.deep_view()[k as int]),
{
    let mut i: usize = 0;
    while i < words.len()
        invariant
            i <= words@.len(),
            first_prefix(words.deep_view(), msg@, 0) == first_prefix(words.deep_view(), msg@, i as int),
        decreases words@.len() - i,
    {
        if starts_with(msg, words[i].as_str()) {
            assert(words.deep_view()[i as int] == words@[i as int]@);
            return Some(i);
        }
        i = i + 1;
    }
    None
}

impl CompletionNode {
    /// The completions that this node offers for `message`.
    pub fn complete(&self, message: &str) -> (r: Vec<String>)
        requires
            completion_safe(*self, message@),
        ensures
            r.deep_view() == complete_spec(*self, message@),
        decreases self, 1int,
    {
        match self {
            CompletionNode::Literal { literals, child_nodes } => {
                CompletionNode::complete_words(literals, child_nodes, message)
            },
            CompletionNode::ArgumentChoice { choices, child_nodes } => {
                CompletionNode::complete_words(choices, child_nodes, message)
            },
            CompletionNode::Argument { argument_type, child_nodes } => {
                match argument_type {
                    ArgumentType::Word => {},
                    ArgumentType::Line => {
                        let r: Vec<String> = Vec::new();
                        proof {
                            assert(r.deep_view() =~= Seq::<Seq<char>>::empty());
                        }
                        return r;
                    },
                }
                match first_word_of(message) {
                    Some(argument) => {
                        let k = utf8_length(argument);
                        match suffix_from_byte(message, k) {
                            Some(rest) => {
                                let rest = trim(rest);
                                proof {
                                    lemma_trim_no_leading_ws(byte_suffix(message@, utf8_len(argument@))->0);
                                }
                                CompletionNode::complete_all(child_nodes, rest)
                            },
                            None => {
                                let r: Vec<String> = Vec::new();
                                proof {
                                    assert(r.deep_view() =~= Seq::<Seq<char>>::empty());
                                }
                                r
                            },
                        }
                    },
                    None => {
                        let r: Vec<String> = Vec::new();
                        proof {
                            assert(r.deep_view() =~= Seq::<Seq<char>>::empty());
                        }
                        r
                    },
                }
            },
            CompletionNode::Final => {
                let r: Vec<String> = Vec::new();
                proof {
                    assert(r.deep_view() =~= Seq::<Seq<char>>::empty());
                }
                r
            },
        }
    }

    fn complete_words(words: &Vec<String>, child_nodes: &Vec<CompletionNode>, message: &str) -> (r: Vec<String>)
        ensures
            r.deep_view() == words_then(words.deep_view(), *child_nodes, message@),
        decreases *child_nodes, 2int,
    {
        let mut r = extending_words(words, message);
        match first_prefix_of(words, message) {
            Some(j) => {
                let len = message.unicode_len();
                let word_len = words[j].as_str().unicode_len();
                assert(words.deep_view()[j as int] == words@[j as int]@);
                let rest = trim(message.substring_char(word_len, len));
                proof {
                    lemma_trim_no_leading_ws(message@.subrange(word_len as int, len as int));
                }
                let ghost before = r.deep_view();
                let mut more = CompletionNode::complete_all(child_nodes, rest);
                let ghost m = more.deep_view();
                r.append(&mut more);
                proof {
                    assert(r.deep_view() =~= before + m);
                }
                r
            },
            None => {
                proof {
                    assert(r.deep_view() =~= r.deep_view() + Seq::<Seq<char>>::empty());
                }
                r
            },
        }
    }

    /// What all of `children` offer for `message`, in order.
    fn complete_all(children: &Vec<CompletionNode>, message: &str) -> (r: Vec<String>)
        requires
            skip_ws(message@, 0) == 0,
        ensures
            r.deep_view() == complete_children(*children, message@, 0),
        decreases *children, 1int,
    {
        let mut r: Vec<String> = Vec::new();
        let n = children.len();
        let mut i: usize = n;
        proof {
            assert(r.deep_view() =~= complete_children(*children, message@, n as int));
        }
        while i > 0
            invariant
                i <= n,
                n == children@.len(),
                skip_ws(message@, 0) == 0,
                r.deep_view() == complete_children(*children, message@, i as int),
            decreases i,
        {
            i = i - 1;
            proof {
                lemma_trimmed_completion_safe(children@[i as int], message@);
                assert(decreases_to!(*children => children@));
                assert(decreases_to!(children@ => children@[i as int]));
            }
            let mut part = children[i].complete(message);
            let ghost p = part.deep_view();
            let ghost tail = r.deep_view();
            part.append(&mut r);
            r = part;
            proof {
                assert(r.deep_view() =~= p + tail);
            }
        }
        r
    }
}

/// The completion trees of the console.
pub struct CommandCompleter {
    pub completion_tree: Vec<CompletionNode>,
}

impl CommandCompleter {
    /// Whether every tree can complete `message` without slicing it
    /// inside a character.
    pub fn can_complete(&self, message: &str) -> (b: bool)
        ensures
            b == forall|i: int|
                0 <= i < self.completion_tree@.len() ==> completion_safe(
                    #[trigger] self.completion_tree@[i],
                    message@,
                ),
    {
        let cut_ok = match first_word_of(message) {
            Some(word) => suffix_from_byte(message, utf8_length(word)).is_some(),
            None => true,
        };
        let mut i: usize = 0;
        while i < self.completion_tree.len()
            invariant
                i <= self.completion_tree@.len(),
                cut_ok == match first_word(message@) {
                    Some(a) => byte_suffix(message@, utf8_len(a)) is Some,
                    None => true,
                },
                forall|k: int| 0 <= k < i ==> completion_safe(#[trigger] self.completion_tree@[k], message@),
            decreases self.completion_tree@.len() - i,
        {
            let word_node = match &self.completion_tree[i] {
                CompletionNode::Argument { argument_type: ArgumentType::Word, .. } => true,
                _ => false,
            };
            if word_node && !cut_ok {
                return false;
            }
            i = i + 1;
        }
        true
    }

    /// What every tree offers for the typed `message`, in order.
    pub fn complete(&self, message: &str) -> (r: Vec<String>)
        requires
            forall|i: int|
                0 <= i < self.completion_tree@.len() ==> completion_safe(
                    #[trigger] self.completion_tree@[i],
                    message@,
                ),
        ensures
            r.deep_view() == complete_children(self.completion_tree, message@, 0),
    {
        let mut r: Vec<String> = Vec::new();
        let n = self.completion_tree.len();
        let mut i: usize = n;
        proof {
            assert(r.deep_view() =~= complete_children(self.completion_tree, message@, n as int));
        }
        while i > 0
            invariant
                i <= n,
                n == self.completion_tree@.len(),
                forall|k: int|
                    0 <= k < self.completion_tree@.len() ==> completion_safe(
                        #[trigger] self.completion_tree@[k],
                        message@,
                    ),
                r.deep_view() == complete_children(self.completion_tree, message@, i as int),
            decreases i,
        {
            i = i - 1;
            let mut part = self.completion_tree[i].complete(message);
            let ghost p = part.deep_view();
            let ghost tail = r.deep_view();
            part.append(&mut r);
            r = part;
            proof {
                assert(r.deep_view() =~= p + tail);
            }
        }
        r
    }
}

/// `c` offers the words of the command tree `n`: literals become
/// literals, arguments stay arguments, final nodes stay final.
pub open spec fn mirrors<C>(c: CompletionNode, n: CommandNode<C>) -> bool
    decreases n, 0int,
{
    match n {
        CommandNode::LiteralNode { literal, child_nodes } => match c {
            CompletionNode::Literal { literals, child_nodes: cc } => literals.deep_view() == seq![literal@]
                && cc@.len() == child_nodes@.len() && mirrors_children(cc@, child_nodes, 0),
            _ => false,
        },
        CommandNode::ArgumentNode { argument_type, child_node } => match c {
            CompletionNode::Argument { argument_type: t, child_nodes: cc } => t == argument_type && cc@.len()
                == 1 && mirrors(cc@[0], *child_node),
            _ => false,
        },
        CommandNode::FinalNode { .. } => c is Final,
    }
}

/// The completion nodes from the `i`-th on mirror the command nodes.
pub open spec fn mirrors_children<C>(cs: Seq<CompletionNode>, ns: Vec<CommandNode<C>>, i: int) -> bool
    decreases ns, ns@.len() - i,
{
    if 0 <= i < ns@.len() {
        proof {
            assert(decreases_to!(ns => ns@));
            assert(decreases_to!(ns@ => ns@[i]));
        }
        mirrors(cs[i], ns@[i]) && mirrors_children(cs, ns, i + 1)
    } else {
        true
    }
}

proof fn lemma_mirrors_children<C>(cs: Seq<CompletionNode>, ns: Vec<CommandNode<C>>, i: int)
    requires
        0 <= i,
        forall|k: int| i <= k < ns@.len() ==> mirrors(cs[k], #[trigger] ns@[k]),
    ensures
        mirrors_children(cs, ns, i),
    decreases ns@.len() - i,
{
    if i < ns@.len() {
        lemma_mirrors_children(cs, ns, i + 1);
    }
}

impl CompletionNode {
    /// The completion tree of a command tree.
    pub fn from_command<C>(node: &CommandNode<C>) -> (r: CompletionNode)
        ensures
            mirrors(r, *node),
        decreases node,
    {
        match node {
            CommandNode::LiteralNode { literal, child_nodes } => {
                let literals = vec![literal.clone()];
                proof {
                    assert(literals.deep_view() =~= seq![literal@]);
                }
                let children = CompletionNode::from_commands(child_nodes);
                proof {
                    lemma_mirrors_children(children@, *child_nodes, 0);
                }
                CompletionNode::Literal { literals, child_nodes: children }
            },
            CommandNode::ArgumentNode { argument_type, child_node } => {
                let child = CompletionNode::from_command(&**child_node);
                let children = vec![child];
                CompletionNode::Argument { argument_type: *argument_type, child_nodes: children }
            },
            CommandNode::FinalNode { .. } => CompletionNode::Final,
        }
    }

    /// The completion trees of command trees, in order.
    pub fn from_commands<C>(commands: &Vec<CommandNode<C>>) -> (r: Vec<CompletionNode>)
        ensures
            r@.len() == commands@.len(),
            forall|k: int| 0 <= k < commands@.len() ==> mirrors(r@[k], #[trigger] commands@[k]),
        decreases commands,
    {
        let mut r: Vec<CompletionNode> = Vec::new();
        let mut i: usize = 0;
        while i < commands.len()
            invariant
                i <= commands@.len(),
                r@.len() == i,
                forall|k: int| 0 <= k < i ==> mirrors(r@[k], #[trigger] commands@[k]),
            decreases commands@.len() - i,
        {
            proof {
                assert(decreases_to!(*commands => commands@));
                assert(decreases_to!(commands@ => commands@[i as int]));
            }
            r.push(CompletionNode::from_command(&commands[i]));
            i = i + 1;
        }
        r
    }
}

} // verus!
