//! Word-only command sequences in Bash scripts.

use crate::syntax;
use crate::syntax::{copy_tree, parse_source, Syntax, SyntaxTree};
use crate::text::same_text;
use vstd::prelude::*;
use vstd::slice::*;
use vstd::string::*;
use vstd::utf8::*;

verus! {

/// The words of a list of strings.
pub open spec fn words_view(words: Seq<String>) -> Seq<Seq<char>> {
    words.map_values(|word: String| word@)
}

/// The words of a list of commands.
pub open spec fn commands_view(commands: Seq<Vec<String>>) -> Seq<Seq<Seq<char>>> {
    commands.map_values(|words: Vec<String>| words_view(words@))
}

/// The source that `node` covers exists.
pub open spec fn in_source(node: Syntax, src: Seq<u8>) -> bool {
    node.start_byte <= node.end_byte <= src.len()
}

/// The text that `node` covers, if it is UTF-8.
pub open spec fn node_text(node: Syntax, src: Seq<u8>) -> Option<Seq<char>> {
    let bytes = src.subrange(node.start_byte as int, node.end_byte as int);
    if valid_utf8(bytes) {
        Some(decode_utf8(bytes))
    } else {
        None
    }
}

/// The children that stand for named rules of the grammar, in source order.
pub open spec fn named_children(node: Syntax) -> Seq<Syntax> {
    node.children.filter(|child: Syntax| child.named)
}

/// The node whose text an argument of a command takes its word from. Arguments that are not
/// plain words have none. A quoted string is a plain word if there is one thing between its
/// quotes, and that is text or a lone dollar.
pub open spec fn word_node(argument: Syntax) -> Option<Syntax> {
    if argument.kind == "command_name"@ {
        let named = named_children(argument);
        if named.len() > 0 && named[0].kind == "word"@ {
            Some(named[0])
        } else {
            None
        }
    } else if argument.kind == "word"@ || argument.kind == "number"@ || argument.kind
        == "raw_string"@ {
        Some(argument)
    } else if argument.kind == "string"@ && argument.children.len() == 3
        && (argument.children[1].kind == "string_content"@ || argument.children[1].kind == "$"@) {
        Some(argument.children[1])
    } else {
        None
    }
}

/// `text` without the single quotes around it.
pub open spec fn without_single_quotes(text: Seq<char>) -> Option<Seq<char>> {
    if text.len() >= 2 && text[0] == '\'' && text.last() == '\'' {
        Some(text.subrange(1, text.len() - 1))
    } else {
        None
    }
}

/// The word that an argument of a command stands for, if it is a plain word.
pub open spec fn plain_word(argument: Syntax, src: Seq<u8>) -> Option<Seq<char>> {
    match word_node(argument) {
        Some(node) => match node_text(node, src) {
            Some(text) => if argument.kind == "raw_string"@ {
                without_single_quotes(text)
            } else {
                Some(text)
            },
            None => None,
        },
        None => None,
    }
}

/// The words of a command, if each of its named parts is a plain word.
pub open spec fn plain_command(command: Syntax, src: Seq<u8>) -> Option<Seq<Seq<char>>> {
    let parts = named_children(command);
    if command.kind == "command"@ && forall|i: int|
        0 <= i < parts.len() ==> plain_word(#[trigger] parts[i], src) is Some {
        Some(Seq::new(parts.len(), |i: int| plain_word(parts[i], src)->0))
    } else {
        None
    }
}

/// The texts that the words of a command are taken from exist, up to the first part that is
/// not a plain word.
pub open spec fn command_in_source(command: Syntax, src: Seq<u8>) -> bool {
    let parts = named_children(command);
    forall|i: int|
        0 <= i < parts.len() && (forall|j: int|
            0 <= j < i ==> plain_word(#[trigger] parts[j], src) is Some) ==> (word_node(
            #[trigger] parts[i],
        ) matches Some(node) ==> in_source(node, src))
}

/// The kinds whose children are read as further commands.
pub open spec fn is_container(kind: Seq<char>) -> bool {
    kind == "program"@ || kind == "list"@ || kind == "pipeline"@
}

/// The tokens that may stand between commands.
pub open spec fn is_allowed_token(kind: Seq<char>) -> bool {
    kind == "&&"@ || kind == "||"@ || kind == ";"@ || kind == "|"@ || kind == "\""@ || kind
        == "'"@
}

/// The characters with the Unicode property `White_Space`.
pub open spec fn white_space(c: char) -> bool {
    ||| '\u{9}' <= c <= '\u{d}'
    ||| c == ' '
    ||| c == '\u{85}'
    ||| c == '\u{a0}'
    ||| c == '\u{1680}'
    ||| '\u{2000}' <= c <= '\u{200a}'
    ||| c == '\u{2028}'
    ||| c == '\u{2029}'
    ||| c == '\u{202f}'
    ||| c == '\u{205f}'
    ||| c == '\u{3000}'
}

/// `char::is_whitespace` tests the Unicode property `White_Space`.
pub assume_specification[ char::is_whitespace ](c: char) -> (blank: bool)
    ensures
        blank == white_space(c),
;

/// The kind consists of white space only.
pub open spec fn is_blank(kind: Seq<char>) -> bool {
    forall|i: int| 0 <= i < kind.len() ==> white_space(#[trigger] kind[i])
}

/// The kinds that the parts of a plain command have.
pub open spec fn is_word_kind(kind: Seq<char>) -> bool {
    kind == "command_name"@ || kind == "word"@ || kind == "number"@ || kind == "string"@ || kind
        == "string_content"@ || kind == "raw_string"@
}

/// The kinds that may occur in a script that is accepted.
pub open spec fn is_allowed_kind(kind: Seq<char>) -> bool {
    ||| kind == "command"@
    ||| is_container(kind)
    ||| is_word_kind(kind)
    ||| is_allowed_token(kind)
    ||| is_blank(kind)
}

/// The kinds that may occur directly below a node. A dollar that starts no expansion may stand in
/// a quoted string.
pub open spec fn is_allowed_below(parent: Seq<char>, kind: Seq<char>) -> bool {
    is_allowed_kind(kind) || (parent == "string"@ && kind == "$"@)
}

/// No node below the root of the tree, at any depth, is a construct that is not allowed.
pub open spec fn only_allowed_below(tree: Syntax) -> bool
    decreases tree,
{
    forall|i: int|
        0 <= i < tree.children.len() ==> is_allowed_below(
            tree.kind,
            (#[trigger] tree.children[i]).kind,
        ) && only_allowed_below(tree.children[i])
}

/// No node of the tree, at any depth, is a construct that is not allowed.
///
/// Tokens that stand for no word are not allowed either: a script such as `echo $` or
/// `echo == b`, whose words do not say all that is in it, is refused.
pub open spec fn only_allowed_kinds(tree: Syntax) -> bool {
    is_allowed_kind(tree.kind) && only_allowed_below(tree)
}

/// The commands at and below `node`, in source order, if there is nothing else but containers,
/// allowed tokens and blanks.
pub open spec fn commands_at(node: Syntax, src: Seq<u8>) -> Option<Seq<Seq<Seq<char>>>>
    decreases node, 1nat, 0nat,
{
    if node.kind == "command"@ {
        match plain_command(node, src) {
            Some(words) => Some(seq![words]),
            None => None,
        }
    } else if is_container(node.kind) {
        commands_in(node.children, node.children.len(), src)
    } else if is_allowed_token(node.kind) || is_blank(node.kind) {
        Some(Seq::empty())
    } else {
        None
    }
}

/// The commands of the first `n` trees of `forest`, under the same condition.
pub open spec fn commands_in(forest: Seq<Syntax>, n: nat, src: Seq<u8>) -> Option<
    Seq<Seq<Seq<char>>>,
>
    decreases forest, 0nat, n,
{
    if n == 0 || n > forest.len() {
        Some(Seq::empty())
    } else {
        match (commands_in(forest, (n - 1) as nat, src), commands_at(forest[n - 1], src)) {
            (Some(before), Some(last)) => Some(before + last),
            _ => None,
        }
    }
}

/// The texts that words are taken from exist, up to the first node that is not allowed.
pub open spec fn commands_in_source(node: Syntax, src: Seq<u8>) -> bool
    decreases node,
{
    if node.kind == "command"@ {
        command_in_source(node, src)
    } else if is_container(node.kind) {
        forall|i: int|
            0 <= i < node.children.len() && commands_in(node.children, i as nat, src) is Some
                ==> commands_in_source(#[trigger] node.children[i], src)
    } else {
        true
    }
}

/// The commands of a script, if its tree has no error, holds no construct that is not allowed,
/// and consists of plain commands joined by the allowed operators.
pub open spec fn word_only_commands(tree: Syntax, src: Seq<u8>) -> Option<Seq<Seq<Seq<char>>>> {
    if tree.has_error || !only_allowed_kinds(tree) {
        None
    } else {
        commands_at(tree, src)
    }
}

/// Calls `std::str::from_utf8`, which succeeds on the valid UTF-8 encodings and hands out the
/// text that the bytes encode.
#[verifier::external_body]
fn text_from_utf8(bytes: &[u8]) -> (text: Option<&str>)
    ensures
        text is Some <==> valid_utf8(bytes@),
        text is Some ==> encode_utf8(text->0@) == bytes@,
{
    std::str::from_utf8(bytes).ok()
}

/// The text that the node at `at` covers.
fn text_of_node<'a>(tree: &SyntaxTree, at: usize, src: &'a [u8]) -> (text: Option<&'a str>)
    requires
        at < tree.nodes@.len(),
        in_source(syntax::subtree(tree.nodes@, at as int), src@),
    ensures
        match text {
            Some(text) => node_text(syntax::subtree(tree.nodes@, at as int), src@) == Some(text@),
            None => node_text(syntax::subtree(tree.nodes@, at as int), src@) is None,
        },
{
    let node = &tree.nodes[at];
    let bytes = slice_subrange(src, node.start_byte, node.end_byte);
    let text = text_from_utf8(bytes);
    proof {
        if text is Some {
            encode_utf8_decode_utf8(text->0@);
        }
    }
    text
}

proof fn lemma_filter_step(s: Seq<Syntax>, i: int, keep: spec_fn(Syntax) -> bool)
    requires
        0 <= i < s.len(),
    ensures
        s.take(i + 1).filter(keep) == if keep(s[i]) {
            s.take(i).filter(keep).push(s[i])
        } else {
            s.take(i).filter(keep)
        },
{
    reveal(Seq::filter);
    assert(s.take(i + 1).drop_last() =~= s.take(i));
}

proof fn lemma_filter_prefix(s: Seq<Syntax>, i: int, keep: spec_fn(Syntax) -> bool)
    requires
        0 <= i <= s.len(),
    ensures
        s.take(i).filter(keep).len() <= s.filter(keep).len(),
        forall|k: int|
            0 <= k < s.take(i).filter(keep).len() ==> s.take(i).filter(keep)[k] == s.filter(
                keep,
            )[k],
    decreases s.len() - i,
{
    if i == s.len() {
        assert(s.take(i) =~= s);
    } else {
        lemma_filter_step(s, i, keep);
        lemma_filter_prefix(s, i + 1, keep);
    }
}

/// The position of the first named child of the node at `at`.
fn first_named_child(tree: &SyntaxTree, at: usize) -> (child: Option<usize>)
    requires
        tree.well_formed(),
        at < tree.nodes@.len(),
    ensures
        match child {
            Some(child) => {
                &&& at < child < tree.nodes@.len()
                &&& named_children(syntax::subtree(tree.nodes@, at as int)).len() > 0
                &&& syntax::subtree(tree.nodes@, child as int) == named_children(
                    syntax::subtree(tree.nodes@, at as int),
                )[0]
            },
            None => named_children(syntax::subtree(tree.nodes@, at as int)).len() == 0,
        },
{
    let children = &tree.nodes[at].children;
    let ghost trees = syntax::subtree(tree.nodes@, at as int).children;
    let ghost keep = |child: Syntax| child.named;
    let mut i: usize = 0;
    proof {
        reveal(Seq::filter);
        assert(trees.take(0).filter(keep).len() == 0);
    }
    while i < children.len()
        invariant
            tree.well_formed(),
            at < tree.nodes@.len(),
            children@ == tree.nodes@[at as int].children@,
            trees == syntax::subtree(tree.nodes@, at as int).children,
            keep == (|child: Syntax| child.named),
            i <= children@.len(),
            trees.take(i as int).filter(keep).len() == 0,
        decreases children@.len() - i,
    {
        let child: usize = children[i];
        proof {
            lemma_filter_step(trees, i as int, keep);
            lemma_filter_prefix(trees, i + 1, keep);
        }
        assert(trees[i as int] == syntax::subtree(tree.nodes@, child as int));
        if tree.nodes[child].named {
            return Some(child);
        }
        i += 1;
    }
    assert(trees.take(i as int) =~= trees);
    None
}

/// The text between the single quotes around `text`.
fn strip_single_quotes(text: &str) -> (stripped: Option<&str>)
    ensures
        match stripped {
            Some(stripped) => without_single_quotes(text@) == Some(stripped@),
            None => without_single_quotes(text@) is None,
        },
{
    let len: usize = text.unicode_len();
    if len >= 2 && text.get_char(0) == '\'' && text.get_char(len - 1) == '\'' {
        Some(text.substring_char(1, len - 1))
    } else {
        None
    }
}

/// The word that the argument at `at` stands for, if it is a plain word.
fn parse_plain_word(tree: &SyntaxTree, at: usize, src: &[u8]) -> (word: Option<String>)
    requires
        tree.well_formed(),
        at < tree.nodes@.len(),
        word_node(syntax::subtree(tree.nodes@, at as int)) matches Some(node) ==> in_source(
            node,
            src@,
        ),
    ensures
        match word {
            Some(word) => plain_word(syntax::subtree(tree.nodes@, at as int), src@) == Some(word@),
            None => plain_word(syntax::subtree(tree.nodes@, at as int), src@) is None,
        },
{
    let argument = &tree.nodes[at];
    let ghost syntax = syntax::subtree(tree.nodes@, at as int);
    proof {
        reveal_strlit("command_name");
        reveal_strlit("word");
        reveal_strlit("number");
        reveal_strlit("string");
        reveal_strlit("raw_string");
        assert("command_name"@.len() == 12 && "word"@.len() == 4 && "number"@.len() == 6
            && "string"@.len() == 6 && "raw_string"@.len() == 10);
    }
    let kind: &str = argument.kind.as_str();
    let text: Option<&str> = if same_text(kind, "command_name") {
        match first_named_child(tree, at) {
            Some(child) => if same_text(tree.nodes[child].kind.as_str(), "word") {
                text_of_node(tree, child, src)
            } else {
                None
            },
            None => None,
        }
    } else if same_text(kind, "word") || same_text(kind, "number") {
        text_of_node(tree, at, src)
    } else if same_text(kind, "string") {
        if argument.children.len() == 3 {
            let child: usize = argument.children[1];
            assert(syntax.children[1] == syntax::subtree(tree.nodes@, child as int));
            if same_text(tree.nodes[child].kind.as_str(), "string_content") || same_text(
                tree.nodes[child].kind.as_str(),
                "$",
            ) {
                text_of_node(tree, child, src)
            } else {
                None
            }
        } else {
            None
        }
    } else if same_text(kind, "raw_string") {
        match text_of_node(tree, at, src) {
            Some(raw) => strip_single_quotes(raw),
            None => None,
        }
    } else {
        None
    };
    match text {
        Some(text) => Some(text.to_owned()),
        None => None,
    }
}

/// The words of the command at `at`, or `None` if the node is no command or if one of its named
/// parts is not a plain word.
pub fn parse_plain_command_from_node(tree: &SyntaxTree, at: usize, src: &[u8]) -> (command: Option<
    Vec<String>,
>)
    requires
        tree.well_formed(),
        at < tree.nodes@.len(),
        syntax::subtree(tree.nodes@, at as int).kind == "command"@ ==> command_in_source(
            syntax::subtree(tree.nodes@, at as int),
            src@,
        ),
    ensures
        match command {
            Some(words) => plain_command(syntax::subtree(tree.nodes@, at as int), src@) == Some(
                words_view(words@),
            ),
            None => plain_command(syntax::subtree(tree.nodes@, at as int), src@) is None,
        },
{
    let node = &tree.nodes[at];
    if !same_text(node.kind.as_str(), "command") {
        return None;
    }
    let ghost command = syntax::subtree(tree.nodes@, at as int);
    let ghost trees = command.children;
    let ghost keep = |child: Syntax| child.named;
    let ghost parts = named_children(command);
    let mut words: Vec<String> = Vec::new();
    let mut i: usize = 0;
    proof {
        reveal(Seq::filter);
        assert(trees.take(0).filter(keep).len() == 0);
    }
    while i < node.children.len()
        invariant
            tree.well_formed(),
            at < tree.nodes@.len(),
            *node == tree.nodes@[at as int],
            command == syntax::subtree(tree.nodes@, at as int),
            command_in_source(command, src@),
            command.kind == "command"@,
            trees == command.children,
            keep == (|child: Syntax| child.named),
            parts == named_children(command),
            i <= node.children@.len(),
            words@.len() == trees.take(i as int).filter(keep).len(),
            words@.len() <= parts.len(),
            forall|k: int|
                0 <= k < words@.len() ==> plain_word(#[trigger] parts[k], src@) == Some(
                    words@[k]@,
                ),
        decreases node.children@.len() - i,
    {
        let child: usize = node.children[i];
        proof {
            lemma_filter_step(trees, i as int, keep);
            lemma_filter_prefix(trees, i + 1, keep);
        }
        assert(trees[i as int] == syntax::subtree(tree.nodes@, child as int));
        if tree.nodes[child].named {
            let ghost k = words@.len() as int;
            assert(parts[k] == syntax::subtree(tree.nodes@, child as int)) by {
                assert(trees.take(i + 1).filter(keep)[k] == trees[i as int]);
            }
            match parse_plain_word(tree, child, src) {
                Some(word) => {
                    words.push(word);
                },
                None => {
                    assert(plain_word(parts[k], src@) is None);
                    return None;
                },
            }
        }
        i += 1;
    }
    proof {
        assert(trees.take(i as int) =~= trees);
        assert(words_view(words@) =~= Seq::new(
            parts.len(),
            |k: int| plain_word(parts[k], src@)->0,
        ));
    }
    Some(words)
}

fn is_blank_kind(kind: &str) -> (blank: bool)
    ensures
        blank == is_blank(kind@),
{
    let len: usize = kind.unicode_len();
    let mut i: usize = 0;
    while i < len
        invariant
            len == kind@.len(),
            i <= len,
            forall|j: int| 0 <= j < i ==> white_space(#[trigger] kind@[j]),
        decreases len - i,
    {
        let c: char = kind.get_char(i);
        if !c.is_whitespace() {
            return false;
        }
        i += 1;
    }
    true
}

fn is_container_kind(kind: &str) -> (container: bool)
    ensures
        container == is_container(kind@),
{
    same_text(kind, "program") || same_text(kind, "list") || same_text(kind, "pipeline")
}

fn is_separator_kind(kind: &str) -> (separator: bool)
    ensures
        separator == (is_allowed_token(kind@) || is_blank(kind@)),
{
    same_text(kind, "&&") || same_text(kind, "||") || same_text(kind, ";") || same_text(kind, "|")
        || same_text(kind, "\"") || same_text(kind, "'") || is_blank_kind(kind)
}

fn is_allowed_kind_name(kind: &str) -> (allowed: bool)
    ensures
        allowed == is_allowed_kind(kind@),
{
    same_text(kind, "command") || is_container_kind(kind) || same_text(kind, "command_name")
        || same_text(kind, "word") || same_text(kind, "number") || same_text(kind, "string")
        || same_text(kind, "string_content") || same_text(kind, "raw_string")
        || is_separator_kind(kind)
}

/// Whether there is no construct that is not allowed below the node at `at`.
fn has_only_allowed_below(tree: &SyntaxTree, at: usize) -> (allowed: bool)
    requires
        tree.well_formed(),
        at < tree.nodes@.len(),
    ensures
        allowed == only_allowed_below(syntax::subtree(tree.nodes@, at as int)),
    decreases tree.nodes@.len() - at,
{
    let node = &tree.nodes[at];
    let quoted: bool = same_text(node.kind.as_str(), "string");
    let ghost syntax = syntax::subtree(tree.nodes@, at as int);
    let mut i: usize = 0;
    while i < node.children.len()
        invariant
            tree.well_formed(),
            at < tree.nodes@.len(),
            *node == tree.nodes@[at as int],
            syntax == syntax::subtree(tree.nodes@, at as int),
            quoted == (syntax.kind == "string"@),
            i <= node.children@.len(),
            forall|j: int|
                0 <= j < i ==> is_allowed_below(
                    syntax.kind,
                    (#[trigger] syntax.children[j]).kind,
                ) && only_allowed_below(syntax.children[j]),
        decreases node.children@.len() - i,
    {
        let child: usize = node.children[i];
        assert(syntax.children[i as int] == syntax::subtree(tree.nodes@, child as int));
        let kind: &str = tree.nodes[child].kind.as_str();
        if !(is_allowed_kind_name(kind) || (quoted && same_text(kind, "$"))) {
            return false;
        }
        if !has_only_allowed_below(tree, child) {
            return false;
        }
        i += 1;
    }
    true
}

/// Whether the tree holds no construct that is not allowed.
fn has_only_allowed_kinds(tree: &SyntaxTree) -> (allowed: bool)
    requires
        tree.well_formed(),
    ensures
        allowed == only_allowed_kinds(tree@),
{
    is_allowed_kind_name(tree.nodes[0].kind.as_str()) && has_only_allowed_below(tree, 0)
}

/// Adds the commands at and below the node at `at` to `commands`; `false` if there is something
/// else than containers, plain commands, allowed tokens and blanks.
fn visit_node(
    tree: &SyntaxTree,
    at: usize,
    src: &[u8],
    commands: &mut Vec<Vec<String>>,
) -> (accepted: bool)
    requires
        tree.well_formed(),
        at < tree.nodes@.len(),
        commands_in_source(syntax::subtree(tree.nodes@, at as int), src@),
    ensures
        accepted == (commands_at(syntax::subtree(tree.nodes@, at as int), src@) is Some),
        accepted ==> commands_view(final(commands)@) == commands_view(old(commands)@)
            + commands_at(syntax::subtree(tree.nodes@, at as int), src@)->0,
    decreases tree.nodes@.len() - at,
{
    let node = &tree.nodes[at];
    let kind: &str = node.kind.as_str();
    let ghost syntax = syntax::subtree(tree.nodes@, at as int);
    if same_text(kind, "command") {
        match parse_plain_command_from_node(tree, at, src) {
            Some(words) => {
                commands.push(words);
                assert(commands_view(commands@) =~= commands_view(old(commands)@)
                    + seq![words_view(words@)]);
                true
            },
            None => false,
        }
    } else if is_container_kind(kind) {
        let mut i: usize = 0;
        assert(commands_view(commands@) =~= commands_view(old(commands)@)
            + Seq::<Seq<Seq<char>>>::empty());
        while i < node.children.len()
            invariant
                tree.well_formed(),
                at < tree.nodes@.len(),
                *node == tree.nodes@[at as int],
                syntax == syntax::subtree(tree.nodes@, at as int),
                syntax.kind != "command"@,
                is_container(syntax.kind),
                commands_in_source(syntax, src@),
                i <= node.children@.len(),
                commands_in(syntax.children, i as nat, src@) is Some,
                commands_view(commands@) == commands_view(old(commands)@) + commands_in(
                    syntax.children,
                    i as nat,
                    src@,
                )->0,
            decreases node.children@.len() - i,
        {
            let child: usize = node.children[i];
            assert(syntax.children[i as int] == syntax::subtree(tree.nodes@, child as int));
            if !visit_node(tree, child, src, commands) {
                proof {
                    lemma_rejected_child(syntax.children, i as nat, src@);
                }
                return false;
            }
            i += 1;
            assert(commands_view(commands@) =~= commands_view(old(commands)@) + commands_in(
                syntax.children,
                i as nat,
                src@,
            )->0);
        }
        true
    } else {
        assert(commands_view(commands@) =~= commands_view(old(commands)@)
            + Seq::<Seq<Seq<char>>>::empty());
        is_separator_kind(kind)
    }
}

/// One rejected tree makes every longer run of trees rejected.
proof fn lemma_rejected_child(forest: Seq<Syntax>, i: nat, src: Seq<u8>)
    requires
        i < forest.len(),
        commands_at(forest[i as int], src) is None,
    ensures
        commands_in(forest, forest.len(), src) is None,
{
    lemma_rejected_run(forest, i, forest.len(), src);
}

proof fn lemma_rejected_run(forest: Seq<Syntax>, i: nat, n: nat, src: Seq<u8>)
    requires
        i < n <= forest.len(),
        commands_at(forest[i as int], src) is None,
    ensures
        commands_in(forest, n, src) is None,
    decreases n,
{
    if i + 1 < n {
        lemma_rejected_run(forest, i, (n - 1) as nat, src);
    }
}

/// `tree` is what the Bash grammar gives to the source in this locale.
pub open spec fn is_parse_in(src: Seq<char>, locale: int, tree: Option<SyntaxTree>) -> bool {
    &&& tree matches Some(tree) ==> tree.well_formed()
    &&& syntax::bash_syntax_in(src, locale) == match tree {
        Some(tree) => Some(tree@),
        None => None,
    }
}

/// `tree` is what the Bash grammar gives to the source: in some locale, and if the source is ASCII,
/// in every one.
pub open spec fn is_parse_of(src: Seq<char>, tree: Option<SyntaxTree>) -> bool {
    &&& exists|locale: int| is_parse_in(src, locale, tree)
    &&& is_ascii_chars(src) ==> forall|locale: int| is_parse_in(src, locale, tree)
}

/// Parses a Bash source with the Bash grammar; `None` if the grammar gives no tree. Outside ASCII,
/// what the grammar takes for letters and spaces depends on the locale of the machine.
///
/// A source shorter than the largest 32-bit offset always has a tree. All of that tree lies within
/// the source, so that the tree can be asked for the commands of the source.
pub fn try_parse_bash(bash_lc_arg: &str) -> (tree: Option<SyntaxTree>)
    ensures
        is_parse_of(bash_lc_arg@, tree),
        encode_utf8(bash_lc_arg@).len() < u32::MAX ==> tree is Some && syntax::spans_within(
            tree->0@,
            encode_utf8(bash_lc_arg@).len(),
        ) && commands_in_source(tree->0@, encode_utf8(bash_lc_arg@)),
{
    let tree = match parse_source(bash_lc_arg) {
        Some(parsed) => Some(copy_tree(parsed.root_node())),
        None => None,
    };
    proof {
        let syntax = if tree is Some {
            Some(tree->0@)
        } else {
            None
        };
        let locale = choose|locale: int| #[trigger]
            syntax::bash_syntax_in(bash_lc_arg@, locale) == syntax;
        assert(is_parse_in(bash_lc_arg@, locale, tree));
        if encode_utf8(bash_lc_arg@).len() < u32::MAX {
            tree_within_source_is_readable(tree->0@, encode_utf8(bash_lc_arg@));
        }
    }
    tree
}

/// In one locale, the tree depends on the source alone: whenever the source is parsed, and whatever
/// was parsed before, it is the same tree, and the same commands are read from it.
pub proof fn parse_depends_on_the_source_alone(
    src: Seq<char>,
    locale: int,
    first: Option<SyntaxTree>,
    second: Option<SyntaxTree>,
)
    requires
        is_parse_in(src, locale, first),
        is_parse_in(src, locale, second),
    ensures
        first is Some <==> second is Some,
        first is Some ==> first->0@ == second->0@ && word_only_commands(
            first->0@,
            encode_utf8(src),
        ) == word_only_commands(second->0@, encode_utf8(src)),
{
}

/// The tree of an ASCII source is the same in every locale, so that any two parses of it agree.
pub proof fn locale_does_not_matter_for_ascii(
    src: Seq<char>,
    first: Option<SyntaxTree>,
    second: Option<SyntaxTree>,
)
    requires
        is_ascii_chars(src),
        is_parse_of(src, first),
        is_parse_of(src, second),
    ensures
        first is Some <==> second is Some,
        first is Some ==> first->0@ == second->0@ && word_only_commands(
            first->0@,
            encode_utf8(src),
        ) == word_only_commands(second->0@, encode_utf8(src)),
{
    assert(is_parse_in(src, 0, first));
    assert(is_parse_in(src, 0, second));
    parse_depends_on_the_source_alone(src, 0, first, second);
}

/// The commands of a script that holds nothing but plain commands joined by `&&`, `||`, `;` and
/// `|`.
///
/// Gives the words of each command, in order, if every command is a plain word-only command and
/// the tree holds no other construct (parentheses, redirections, substitutions, control flow and
/// so on) and no error, and `None` otherwise.
pub fn try_parse_word_only_commands_sequence(tree: &SyntaxTree, src: &str) -> (commands: Option<
    Vec<Vec<String>>,
>)
    requires
        tree.well_formed(),
        !tree@.has_error && only_allowed_kinds(tree@) ==> commands_in_source(
            tree@,
            encode_utf8(src@),
        ),
    ensures
        match commands {
            Some(commands) => word_only_commands(tree@, encode_utf8(src@)) == Some(
                commands_view(commands@),
            ),
            None => word_only_commands(tree@, encode_utf8(src@)) is None,
        },
{
    if tree.nodes[0].has_error || !has_only_allowed_kinds(tree) {
        return None;
    }
    let mut commands: Vec<Vec<String>> = Vec::new();
    let accepted: bool = visit_node(tree, 0, src.as_bytes(), &mut commands);
    if accepted {
        proof {
            let found = commands_at(tree@, encode_utf8(src@))->0;
            assert(commands_view(Seq::<Vec<String>>::empty()) + found =~= found);
        }
        Some(commands)
    } else {
        None
    }
}

/// A tree that lies within a source can be asked for the commands of that source: every text
/// that is read exists.
pub proof fn tree_within_source_is_readable(tree: Syntax, src: Seq<u8>)
    requires
        syntax::spans_within(tree, src.len()),
    ensures
        commands_in_source(tree, src),
    decreases tree,
{
    if tree.kind == "command"@ {
        let parts = named_children(tree);
        assert forall|i: int| 0 <= i < parts.len() implies (word_node(
            #[trigger] parts[i],
        ) matches Some(node) ==> in_source(node, src)) by {
            lemma_named_child_within(tree, i, src.len());
            if parts[i].kind == "command_name"@ {
                if named_children(parts[i]).len() > 0 {
                    lemma_named_child_within(parts[i], 0, src.len());
                }
            } else if parts[i].children.len() == 3 {
                assert(syntax::spans_within(parts[i].children[1], src.len()));
            }
        }
    } else if is_container(tree.kind) {
        assert forall|i: int| 0 <= i < tree.children.len() implies commands_in_source(
            #[trigger] tree.children[i],
            src,
        ) by {
            tree_within_source_is_readable(tree.children[i], src);
        }
    }
}

proof fn lemma_filtered_is_contained(s: Seq<Syntax>, keep: spec_fn(Syntax) -> bool, i: int)
    requires
        0 <= i < s.filter(keep).len(),
    ensures
        s.contains(s.filter(keep)[i]),
    decreases s.len(),
{
    reveal(Seq::filter);
    let rest = s.drop_last();
    if i < rest.filter(keep).len() {
        lemma_filtered_is_contained(rest, keep, i);
        let k = choose|k: int| 0 <= k < rest.len() && rest[k] == rest.filter(keep)[i];
        assert(s[k] == s.filter(keep)[i]);
    } else {
        assert(s[s.len() - 1] == s.filter(keep)[i]);
    }
}

proof fn lemma_named_child_within(node: Syntax, i: int, len: nat)
    requires
        syntax::spans_within(node, len),
        0 <= i < named_children(node).len(),
    ensures
        syntax::spans_within(named_children(node)[i], len),
{
    let child = named_children(node)[i];
    lemma_filtered_is_contained(node.children, |child: Syntax| child.named, i);
    let k = choose|k: int| 0 <= k < node.children.len() && node.children[k] == child;
    assert(syntax::spans_within(node.children[k], len));
}

/// At and below `node` there are only containers, plain commands, allowed tokens and blanks.
pub open spec fn only_plain_commands(node: Syntax, src: Seq<u8>) -> bool
    decreases node,
{
    if node.kind == "command"@ {
        plain_command(node, src) is Some
    } else if is_container(node.kind) {
        forall|i: int|
            0 <= i < node.children.len() ==> only_plain_commands(#[trigger] node.children[i], src)
    } else {
        is_allowed_token(node.kind) || is_blank(node.kind)
    }
}

/// The command nodes at and below `node`, in source order.
pub open spec fn command_nodes_at(node: Syntax) -> Seq<Syntax>
    decreases node, 1nat, 0nat,
{
    if node.kind == "command"@ {
        seq![node]
    } else if is_container(node.kind) {
        command_nodes_in(node.children, node.children.len())
    } else {
        Seq::empty()
    }
}

/// The command nodes of the first `n` trees of `forest`.
pub open spec fn command_nodes_in(forest: Seq<Syntax>, n: nat) -> Seq<Syntax>
    decreases forest, 0nat, n,
{
    if n == 0 || n > forest.len() {
        Seq::empty()
    } else {
        command_nodes_in(forest, (n - 1) as nat) + command_nodes_at(forest[n - 1])
    }
}

/// A script is accepted exactly if its tree has no error, holds no construct that is not allowed
/// and has only containers, plain commands, allowed tokens and blanks outside its commands; it
/// then gives the words of each of its commands, in source order.
pub proof fn accepts_exactly_plain_commands(tree: Syntax, src: Seq<u8>)
    ensures
        word_only_commands(tree, src) is Some <==> !tree.has_error && only_allowed_kinds(tree)
            && only_plain_commands(tree, src),
        word_only_commands(tree, src) matches Some(commands) ==> commands
            == command_nodes_at(tree).map_values(
            |command: Syntax| plain_command(command, src)->0,
        ),
{
    lemma_commands_at(tree, src);
}

proof fn lemma_commands_at(node: Syntax, src: Seq<u8>)
    ensures
        commands_at(node, src) is Some <==> only_plain_commands(node, src),
        commands_at(node, src) matches Some(commands) ==> commands
            == command_nodes_at(node).map_values(
            |command: Syntax| plain_command(command, src)->0,
        ),
    decreases node, 1nat, 0nat,
{
    let words = |command: Syntax| plain_command(command, src)->0;
    if node.kind == "command"@ {
        assert(seq![node].map_values(words) =~= seq![words(node)]);
    } else if is_container(node.kind) {
        lemma_commands_in(node.children, node.children.len(), src);
    } else {
        assert(Seq::<Syntax>::empty().map_values(words) =~= Seq::<Seq<Seq<char>>>::empty());
    }
}

proof fn lemma_commands_in(forest: Seq<Syntax>, n: nat, src: Seq<u8>)
    requires
        n <= forest.len(),
    ensures
        commands_in(forest, n, src) is Some <==> forall|i: int|
            0 <= i < n ==> only_plain_commands(#[trigger] forest[i], src),
        commands_in(forest, n, src) matches Some(commands) ==> commands
            == command_nodes_in(forest, n).map_values(
            |command: Syntax| plain_command(command, src)->0,
        ),
    decreases forest, 0nat, n,
{
    let words = |command: Syntax| plain_command(command, src)->0;
    if n == 0 {
        assert(Seq::<Syntax>::empty().map_values(words) =~= Seq::<Seq<Seq<char>>>::empty());
    } else {
        lemma_commands_in(forest, (n - 1) as nat, src);
        lemma_commands_at(forest[n - 1], src);
        let before = command_nodes_in(forest, (n - 1) as nat);
        let last = command_nodes_at(forest[n - 1]);
        assert((before + last).map_values(words) =~= before.map_values(words) + last.map_values(
            words,
        ));
    }
}

/// The node that `path` leads to from `tree`, one child at a time.
pub open spec fn descendant(tree: Syntax, path: Seq<nat>) -> Option<Syntax>
    decreases path.len(),
{
    if path.len() == 0 {
        Some(tree)
    } else if path[0] < tree.children.len() {
        descendant(tree.children[path[0] as int], path.drop_first())
    } else {
        None
    }
}

/// One construct that is not allowed, at any depth, makes the whole script rejected. For dollars
/// see [`dollar_outside_strings_is_rejected`].
pub proof fn disallowed_construct_is_rejected(
    tree: Syntax,
    src: Seq<u8>,
    path: Seq<nat>,
    found: Syntax,
)
    requires
        descendant(tree, path) == Some(found),
        !is_allowed_kind(found.kind),
        found.kind != "$"@,
    ensures
        word_only_commands(tree, src) is None,
{
    if path.len() > 0 {
        lemma_disallowed_below(tree, path, found);
    }
}

proof fn lemma_disallowed_below(tree: Syntax, path: Seq<nat>, found: Syntax)
    requires
        path.len() > 0,
        descendant(tree, path) == Some(found),
        !is_allowed_kind(found.kind),
        found.kind != "$"@,
    ensures
        !only_allowed_below(tree),
    decreases path.len(),
{
    let child = tree.children[path[0] as int];
    if path.len() > 1 {
        lemma_disallowed_below(child, path.drop_first(), found);
    } else {
        assert(descendant(child, path.drop_first()) == Some(child));
    }
}

/// A dollar that starts no expansion makes the whole script rejected, unless it stands in a quoted
/// string.
pub proof fn dollar_outside_strings_is_rejected(
    tree: Syntax,
    src: Seq<u8>,
    path: Seq<nat>,
    parent: Syntax,
    i: int,
)
    requires
        descendant(tree, path) == Some(parent),
        parent.kind != "string"@,
        0 <= i < parent.children.len(),
        parent.children[i].kind == "$"@,
    ensures
        word_only_commands(tree, src) is None,
{
    reveal_strlit("$");
    reveal_strlit("command");
    reveal_strlit("program");
    reveal_strlit("list");
    reveal_strlit("pipeline");
    reveal_strlit("command_name");
    reveal_strlit("word");
    reveal_strlit("number");
    reveal_strlit("string");
    reveal_strlit("string_content");
    reveal_strlit("raw_string");
    reveal_strlit("&&");
    reveal_strlit("||");
    reveal_strlit(";");
    reveal_strlit("|");
    reveal_strlit("\"");
    reveal_strlit("'");
    assert("$"@[0] == '$' && "$"@.len() == 1);
    assert(";"@[0] == ';' && "|"@[0] == '|' && "\""@[0] == '\"' && "'"@[0] == '\'');
    assert(!is_blank("$"@)) by {
        assert(!white_space("$"@[0]));
    }
    assert(!is_allowed_kind("$"@));
    lemma_disallowed_child(tree, path, parent, i);
}

proof fn lemma_disallowed_child(tree: Syntax, path: Seq<nat>, parent: Syntax, i: int)
    requires
        descendant(tree, path) == Some(parent),
        0 <= i < parent.children.len(),
        !is_allowed_below(parent.kind, parent.children[i].kind),
    ensures
        !only_allowed_below(tree),
    decreases path.len(),
{
    if path.len() > 0 {
        lemma_disallowed_child(tree.children[path[0] as int], path.drop_first(), parent, i);
    }
}

/// The operators leave no trace: the commands of two parts that are joined by an allowed token are
/// those of the first part, followed by those of the second.
pub proof fn operators_join_commands(
    joined: Syntax,
    left: Syntax,
    operator: Syntax,
    right: Syntax,
    src: Seq<u8>,
)
    requires
        is_container(joined.kind),
        joined.children == seq![left, operator, right],
        is_allowed_token(operator.kind),
    ensures
        commands_at(joined, src) == match (commands_at(left, src), commands_at(right, src)) {
            (Some(first), Some(second)) => Some(first + second),
            _ => None,
        },
{
    lemma_tokens_are_nothing_else(operator.kind);
    lemma_tokens_are_nothing_else(joined.kind);
    let forest = joined.children;
    let none = Seq::<Seq<Seq<char>>>::empty();
    assert(commands_at(forest[1], src) == Some(none));
    assert(commands_in(forest, 0, src) == Some(none));
    match commands_at(left, src) {
        Some(first) => {
            assert(none + first =~= first);
            assert(first + none =~= first);
            assert(commands_in(forest, 1, src) == Some(first));
            assert(commands_in(forest, 2, src) == Some(first));
            assert(commands_at(joined, src) == commands_in(forest, 3, src));
        },
        None => {
            lemma_rejected_child(forest, 0, src);
        },
    }
}

/// A part that is neither accepted nor an allowed token makes what it is joined into rejected, for
/// example a part that is put into parentheses or sent into the background.
pub proof fn rejected_part_rejects_the_whole(joined: Syntax, i: int, src: Seq<u8>)
    requires
        is_container(joined.kind),
        0 <= i < joined.children.len(),
        commands_at(joined.children[i], src) is None,
    ensures
        commands_at(joined, src) is None,
        word_only_commands(joined, src) is None,
{
    lemma_tokens_are_nothing_else(joined.kind);
    lemma_rejected_child(joined.children, i as nat, src);
}

/// The kinds of commands, of containers and of tokens are different ones.
proof fn lemma_tokens_are_nothing_else(kind: Seq<char>)
    ensures
        is_allowed_token(kind) || is_container(kind) ==> kind != "command"@,
        is_allowed_token(kind) ==> !is_container(kind),
{
    reveal_strlit("command");
    reveal_strlit("program");
    reveal_strlit("list");
    reveal_strlit("pipeline");
    reveal_strlit("&&");
    reveal_strlit("||");
    reveal_strlit(";");
    reveal_strlit("|");
    reveal_strlit("\"");
    reveal_strlit("'");
    assert("command"@[0] == 'c' && "program"@[0] == 'p' && "list"@[0] == 'l' && "pipeline"@[0]
        == 'p');
    assert("&&"@[0] == '&' && "||"@[0] == '|' && ";"@[0] == ';' && "|"@[0] == '|' && "\""@[0]
        == '\"' && "'"@[0] == '\'');
}

/// The source that `node` covers is the encoding of `text`.
pub open spec fn covers(node: Syntax, text: Seq<char>, src: Seq<u8>) -> bool {
    src.subrange(node.start_byte as int, node.end_byte as int) == encode_utf8(text)
}

/// `word` is what a part of a command says: a bare word or number says itself, a part in single
/// quotes what is between them, a part in double quotes the one thing between them, and the name of
/// the command the word that it consists of.
pub open spec fn says(part: Syntax, word: Seq<char>, src: Seq<u8>) -> bool {
    let named = part.children.filter(|child: Syntax| child.named);
    ||| (part.kind == "word"@ || part.kind == "number"@) && covers(part, word, src)
    ||| part.kind == "raw_string"@ && covers(part, seq!['\''] + word + seq!['\''], src)
    ||| part.kind == "string"@ && part.children.len() == 3 && (part.children[1].kind
        == "string_content"@ || part.children[1].kind == "$"@) && covers(
        part.children[1],
        word,
        src,
    )
    ||| part.kind == "command_name"@ && named.len() > 0 && named[0].kind == "word"@ && covers(
        named[0],
        word,
        src,
    )
}

proof fn lemma_node_text(node: Syntax, text: Seq<char>, src: Seq<u8>)
    ensures
        node_text(node, src) == Some(text) <==> covers(node, text, src),
{
    let bytes = src.subrange(node.start_byte as int, node.end_byte as int);
    if valid_utf8(bytes) {
        decode_utf8_encode_utf8(bytes);
    }
    encode_utf8_valid_utf8(text);
    encode_utf8_decode_utf8(text);
}

proof fn lemma_quotes(text: Seq<char>, word: Seq<char>)
    ensures
        without_single_quotes(text) == Some(word) <==> text == seq!['\''] + word + seq!['\''],
{
    let quoted = seq!['\''] + word + seq!['\''];
    if without_single_quotes(text) == Some(word) {
        assert(text =~= quoted);
    }
    if text == quoted {
        assert(text.subrange(1, text.len() - 1) =~= word);
    }
}

/// A part of a command is a plain word exactly if it says something, and then it is what it says.
pub proof fn plain_word_is_what_its_part_says(part: Syntax, word: Seq<char>, src: Seq<u8>)
    ensures
        plain_word(part, src) == Some(word) <==> says(part, word, src),
{
    reveal_strlit("command_name");
    reveal_strlit("word");
    reveal_strlit("number");
    reveal_strlit("string");
    reveal_strlit("raw_string");
    assert("command_name"@.len() == 12 && "word"@.len() == 4 && "number"@.len() == 6
        && "string"@.len() == 6 && "raw_string"@.len() == 10);
    assert("number"@[0] == 'n' && "string"@[0] == 's');
    let named = part.children.filter(|child: Syntax| child.named);
    assert(named == named_children(part));
    match word_node(part) {
        Some(node) => {
            lemma_node_text(node, word, src);
            if part.kind == "raw_string"@ {
                let quoted = seq!['\''] + word + seq!['\''];
                lemma_node_text(node, quoted, src);
                lemma_quotes(quoted, word);
                if node_text(node, src) is Some {
                    lemma_quotes(node_text(node, src)->0, word);
                }
            }
        },
        None => {},
    }
}

/// A command is accepted with these words exactly if there is one word for each of its named parts,
/// in their order, and each word is what its part says.
pub proof fn command_has_one_word_for_each_part(
    command: Syntax,
    words: Seq<Seq<char>>,
    src: Seq<u8>,
)
    ensures
        plain_command(command, src) == Some(words) <==> {
            let parts = command.children.filter(|child: Syntax| child.named);
            &&& command.kind == "command"@
            &&& words.len() == parts.len()
            &&& forall|k: int| 0 <= k < parts.len() ==> says(#[trigger] parts[k], words[k], src)
        },
{
    let parts = command.children.filter(|child: Syntax| child.named);
    assert(parts == named_children(command));
    assert forall|k: int| 0 <= k < parts.len() implies (plain_word(#[trigger] parts[k], src)
        == Some(words[k]) <==> says(parts[k], words[k], src)) by {
        plain_word_is_what_its_part_says(parts[k], words[k], src);
    }
    if plain_command(command, src) == Some(words) {
        assert forall|k: int| 0 <= k < parts.len() implies says(
            #[trigger] parts[k],
            words[k],
            src,
        ) by {
            assert(plain_word(parts[k], src) is Some);
        }
    }
    if command.kind == "command"@ && words.len() == parts.len() && (forall|k: int|
        0 <= k < parts.len() ==> says(#[trigger] parts[k], words[k], src)) {
        assert(plain_command(command, src)->0 =~= words);
    }
}

/// A program, list or pipeline whose children all give commands gives these, one after the other.
pub proof fn container_gives_what_its_children_give(
    node: Syntax,
    given: Seq<Seq<Seq<Seq<char>>>>,
    src: Seq<u8>,
)
    requires
        node.kind == "program"@ || node.kind == "list"@ || node.kind == "pipeline"@,
        given.len() == node.children.len(),
        forall|i: int|
            0 <= i < given.len() ==> commands_at(#[trigger] node.children[i], src) == Some(given[i]),
    ensures
        commands_at(node, src) == Some(given.flatten()),
{
    lemma_tokens_are_nothing_else(node.kind);
    lemma_children_give(node.children, given, given.len(), src);
    assert(given.take(given.len() as int) =~= given);
    given.lemma_flatten_and_flatten_alt_are_equivalent();
}

proof fn lemma_children_give(
    forest: Seq<Syntax>,
    given: Seq<Seq<Seq<Seq<char>>>>,
    n: nat,
    src: Seq<u8>,
)
    requires
        given.len() == forest.len(),
        n <= given.len(),
        forall|i: int|
            0 <= i < given.len() ==> commands_at(#[trigger] forest[i], src) == Some(given[i]),
    ensures
        commands_in(forest, n, src) == Some(given.take(n as int).flatten_alt()),
    decreases n,
{
    if n > 0 {
        lemma_children_give(forest, given, (n - 1) as nat, src);
        assert(given.take(n as int).drop_last() =~= given.take(n - 1));
        assert(commands_at(forest[n - 1], src) == Some(given[n - 1]));
    }
}

/// The commands of a script come from its `command` nodes, each of which gives its words; operators
/// and white space give none, and nothing else is accepted.
pub proof fn only_commands_give_commands(node: Syntax, src: Seq<u8>)
    ensures
        node.kind == "command"@ ==> commands_at(node, src) == match plain_command(node, src) {
            Some(words) => Some(seq![words]),
            None => None,
        },
        node.kind == "&&"@ || node.kind == "||"@ || node.kind == ";"@ || node.kind == "|"@
            || node.kind == "\""@ || node.kind == "'"@ ==> commands_at(node, src) == Some(
            Seq::<Seq<Seq<char>>>::empty(),
        ),
        commands_at(node, src) is Some ==> node.kind == "command"@ || node.kind == "program"@
            || node.kind == "list"@ || node.kind == "pipeline"@ || node.kind == "&&"@ || node.kind
            == "||"@ || node.kind == ";"@ || node.kind == "|"@ || node.kind == "\""@ || node.kind
            == "'"@ || (forall|i: int|
            0 <= i < node.kind.len() ==> white_space(#[trigger] node.kind[i])),
        (forall|i: int| 0 <= i < node.kind.len() ==> white_space(#[trigger] node.kind[i]))
            ==> commands_at(node, src) == Some(Seq::<Seq<Seq<char>>>::empty()),
{
    lemma_tokens_are_nothing_else(node.kind);
    reveal_strlit("command");
    reveal_strlit("program");
    reveal_strlit("list");
    reveal_strlit("pipeline");
    assert("command"@[0] == 'c' && "program"@[0] == 'p' && "list"@[0] == 'l' && "pipeline"@[0]
        == 'p');
    if node.kind.len() > 0 && white_space(node.kind[0]) {
        assert(node.kind[0] != 'c' && node.kind[0] != 'p' && node.kind[0] != 'l');
    }
}

/// The kind is that of a command, of what commands are joined by, or of what a command is made of.
pub open spec fn is_listed(kind: Seq<char>) -> bool {
    ||| kind == "command"@ || kind == "program"@ || kind == "list"@ || kind == "pipeline"@
    ||| kind == "command_name"@ || kind == "word"@ || kind == "number"@ || kind == "string"@
    ||| kind == "string_content"@ || kind == "raw_string"@
    ||| kind == "&&"@ || kind == "||"@ || kind == ";"@ || kind == "|"@
    ||| kind == "\""@ || kind == "'"@
    ||| forall|i: int| 0 <= i < kind.len() ==> white_space(#[trigger] kind[i])
}

/// The children of the node that `path` leads to, if it leads to one, are of listed kinds, but for
/// dollars in strings.
pub open spec fn has_listed_children_at(tree: Syntax, path: Seq<nat>) -> bool {
    match descendant(tree, path) {
        Some(parent) => forall|i: int|
            0 <= i < parent.children.len() ==> is_listed((#[trigger] parent.children[i]).kind) || (
            parent.kind == "string"@ && parent.children[i].kind == "$"@),
        None => true,
    }
}

/// A script gives commands exactly if its tree has no error, every node in it is of a listed kind
/// or a dollar in a string, and its root gives these commands.
pub proof fn script_is_accepted_if_all_of_it_is(
    tree: Syntax,
    commands: Seq<Seq<Seq<char>>>,
    src: Seq<u8>,
)
    ensures
        word_only_commands(tree, src) == Some(commands) <==> {
            &&& !tree.has_error
            &&& is_listed(tree.kind)
            &&& forall|path: Seq<nat>| #[trigger] has_listed_children_at(tree, path)
            &&& commands_at(tree, src) == Some(commands)
        },
{
    if only_allowed_below(tree) {
        assert forall|path: Seq<nat>| #[trigger] has_listed_children_at(tree, path) by {
            lemma_listed_if_allowed(tree, path);
        }
    }
    if forall|path: Seq<nat>| #[trigger] has_listed_children_at(tree, path) {
        lemma_allowed_if_listed(tree);
    }
}

proof fn lemma_listed_if_allowed(tree: Syntax, path: Seq<nat>)
    requires
        only_allowed_below(tree),
    ensures
        has_listed_children_at(tree, path),
    decreases path.len(),
{
    if path.len() > 0 && path[0] < tree.children.len() {
        assert(only_allowed_below(tree.children[path[0] as int]));
        lemma_listed_if_allowed(tree.children[path[0] as int], path.drop_first());
    }
}

proof fn lemma_allowed_if_listed(tree: Syntax)
    requires
        forall|path: Seq<nat>| #[trigger] has_listed_children_at(tree, path),
    ensures
        only_allowed_below(tree),
    decreases tree,
{
    assert(has_listed_children_at(tree, Seq::empty()));
    assert forall|i: int| 0 <= i < tree.children.len() implies is_allowed_below(
        tree.kind,
        (#[trigger] tree.children[i]).kind,
    ) && only_allowed_below(tree.children[i]) by {
        let child = tree.children[i];
        let here = Seq::<nat>::empty();
        assert(has_listed_children_at(tree, here));
        assert(descendant(tree, here) == Some(tree));
        let parent = descendant(tree, here)->0;
        assert(parent.children[i] == child);
        assert(is_listed(child.kind) || (tree.kind == "string"@ && child.kind == "$"@));
        assert(is_listed(child.kind) ==> is_allowed_kind(child.kind));
        assert forall|path: Seq<nat>| #[trigger] has_listed_children_at(child, path) by {
            let longer = seq![i as nat] + path;
            assert(longer.drop_first() =~= path);
            assert(has_listed_children_at(tree, longer));
        }
        lemma_allowed_if_listed(child);
    }
}

/// What is said of a parse is said of the grammar's tree of this very source.
pub proof fn parse_is_the_tree_of_its_source(src: Seq<char>, tree: Option<SyntaxTree>)
    requires
        is_parse_of(src, tree),
    ensures
        tree is Some ==> exists|locale: int| #[trigger]
            syntax::bash_syntax_in(src, locale) == Some(tree->0@),
        tree is None ==> exists|locale: int| #[trigger]
            syntax::bash_syntax_in(src, locale) is None,
        is_ascii_chars(src) && tree is Some ==> forall|locale: int| #[trigger]
            syntax::bash_syntax_in(src, locale) == Some(tree->0@),
        is_ascii_chars(src) && tree is None ==> forall|locale: int| #[trigger]
            syntax::bash_syntax_in(src, locale) is None,
        tree matches Some(tree) ==> tree.well_formed(),
{
    let locale = choose|locale: int| is_parse_in(src, locale, tree);
    assert(is_parse_in(src, locale, tree));
    if is_ascii_chars(src) {
        assert forall|locale: int| #![trigger syntax::bash_syntax_in(src, locale)] is_parse_in(
            src,
            locale,
            tree,
        ) by {}
    }
}

/// The views of words and commands hold every word of every command, character by character.
pub proof fn views_hold_every_word(commands: Seq<Vec<String>>, i: int, k: int)
    requires
        0 <= i < commands.len(),
        0 <= k < commands[i]@.len(),
    ensures
        commands_view(commands).len() == commands.len(),
        commands_view(commands)[i] == words_view(commands[i]@),
        words_view(commands[i]@).len() == commands[i]@.len(),
        words_view(commands[i]@)[k] == commands[i]@[k]@,
{
}

} // verus!
