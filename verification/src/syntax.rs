//! Syntax trees as plain values.
//!
//! The grammar crate hands out its trees through cursors and borrowed nodes. Here a tree is a
//! list of nodes that name their children by position, so that the rules on commands read
//! nothing but strings, flags and numbers.

use vstd::prelude::*;
use vstd::utf8::*;

verus! {

/// What a syntax node is: its kind, its flags, the bytes of the source it covers and its
/// children, in source order.
#[verifier::ext_equal]
pub struct Syntax {
    pub kind: Seq<char>,
    /// Whether the node stands for a named rule of the grammar rather than for a literal token.
    pub named: bool,
    /// Whether the node is, or holds somewhere below it, a syntax error.
    pub has_error: bool,
    pub start_byte: nat,
    pub end_byte: nat,
    pub children: Seq<Syntax>,
}

/// Every node of the tree covers bytes that a source of `len` bytes has.
pub open spec fn spans_within(syntax: Syntax, len: nat) -> bool
    decreases syntax,
{
    &&& syntax.start_byte <= syntax.end_byte <= len
    &&& forall|i: int|
        0 <= i < syntax.children.len() ==> spans_within(#[trigger] syntax.children[i], len)
}

/// One node of a [`SyntaxTree`]; `children` are positions in the tree's list of nodes.
pub struct SyntaxNode {
    pub kind: String,
    pub named: bool,
    pub has_error: bool,
    pub start_byte: usize,
    pub end_byte: usize,
    pub children: Vec<usize>,
}

/// A syntax tree: a list of nodes, the root first, in which a node stands before its children.
pub struct SyntaxTree {
    pub nodes: Vec<SyntaxNode>,
}

/// The tree below the node at position `at`.
pub open spec fn subtree(nodes: Seq<SyntaxNode>, at: int) -> Syntax
    decreases nodes.len() - at,
{
    let node = nodes[at];
    Syntax {
        kind: node.kind@,
        named: node.named,
        has_error: node.has_error,
        start_byte: node.start_byte as nat,
        end_byte: node.end_byte as nat,
        children: Seq::new(
            node.children@.len(),
            |k: int|
                if at < node.children@[k] < nodes.len() {
                    subtree(nodes, node.children@[k] as int)
                } else {
                    arbitrary()
                },
        ),
    }
}

impl View for SyntaxTree {
    type V = Syntax;

    open spec fn view(&self) -> Syntax {
        subtree(self.nodes@, 0)
    }
}

impl SyntaxTree {
    /// There is a root, and every child stands after its parent and within the list.
    pub open spec fn well_formed(&self) -> bool {
        &&& self.nodes@.len() > 0
        &&& forall|i: int, k: int|
            #![trigger self.nodes@[i].children@[k]]
            0 <= i < self.nodes@.len() && 0 <= k < self.nodes@[i].children@.len() ==> i
                < self.nodes@[i].children@[k] < self.nodes@.len()
    }
}

/// `tree_sitter::Tree`, carried as an opaque value.
#[verifier::external_type_specification]
#[verifier::external_body]
pub struct ExTree(tree_sitter::Tree);

/// `tree_sitter::Node`, carried as an opaque value.
#[verifier::external_type_specification]
#[verifier::external_body]
pub struct ExNode<'tree>(tree_sitter::Node<'tree>);

/// The syntax tree that the Bash grammar gives to a source text, if it gives one, where `locale`
/// stands for the character classes of the machine: to split a text into tokens, the grammar asks
/// the C library which characters are letters, digits and spaces, and outside ASCII the answer
/// depends on the locale.
pub uninterp spec fn bash_syntax_in(src: Seq<char>, locale: int) -> Option<Syntax>;

/// The nodes that a `tree_sitter::Tree` holds.
pub uninterp spec fn tree_syntax(tree: tree_sitter::Tree) -> Syntax;

/// The nodes that a `tree_sitter::Node` holds: itself and what is below it.
pub uninterp spec fn node_syntax(node: tree_sitter::Node<'_>) -> Syntax;

/// Calls `tree_sitter::Parser::parse` on a fresh parser for `tree_sitter_bash::LANGUAGE`, with
/// no earlier tree, time limit or cancellation.
///
/// The tree is the one that the grammar gives to this text in some locale. Which locale that is is
/// left open, since the machine decides; for an ASCII text every locale gives the same tree.
/// Sources shorter than the largest 32-bit offset always parse, since none of the reasons for which
/// `parse` gives `None` applies, and every node of their tree lies within the source.
#[verifier::external_body]
pub(crate) fn parse_source(src: &str) -> (parsed: Option<tree_sitter::Tree>)
    ensures
        exists|locale: int| #[trigger]
            bash_syntax_in(src@, locale) == match parsed {
                Some(tree) => Some(tree_syntax(tree)),
                None => None,
            },
        is_ascii_chars(src@) ==> forall|locale: int| #[trigger]
            bash_syntax_in(src@, locale) == match parsed {
                Some(tree) => Some(tree_syntax(tree)),
                None => None,
            },
        encode_utf8(src@).len() < u32::MAX ==> parsed is Some && spans_within(
            tree_syntax(parsed->0),
            encode_utf8(src@).len(),
        ),
{
    let mut parser = tree_sitter::Parser::new();
    parser.set_language(&tree_sitter_bash::LANGUAGE.into()).expect("load bash grammar");
    parser.parse(src, None)
}

/// `tree_sitter::Tree::root_node` gives the node that holds the whole tree.
pub assume_specification<'tree>[ tree_sitter::Tree::root_node ](
    tree: &'tree tree_sitter::Tree,
) -> (node: tree_sitter::Node<'tree>)
    ensures
        node_syntax(node) == tree_syntax(*tree),
;

/// `tree_sitter::Node::kind` gives the node's type as a string.
pub assume_specification<'tree>[ tree_sitter::Node::<'tree>::kind ](
    node: &tree_sitter::Node<'tree>,
) -> (kind: &'static str)
    ensures
        kind@ == node_syntax(*node).kind,
;

/// `tree_sitter::Node::is_named` tells named rules from literal tokens.
pub assume_specification<'tree>[ tree_sitter::Node::<'tree>::is_named ](
    node: &tree_sitter::Node<'tree>,
) -> (named: bool)
    ensures
        named == node_syntax(*node).named,
;

/// `tree_sitter::Node::has_error` tells whether there is a syntax error at or below the node.
pub assume_specification<'tree>[ tree_sitter::Node::<'tree>::has_error ](
    node: &tree_sitter::Node<'tree>,
) -> (has_error: bool)
    ensures
        has_error == node_syntax(*node).has_error,
;

/// `tree_sitter::Node::start_byte` gives the offset at which the node starts.
pub assume_specification<'tree>[ tree_sitter::Node::<'tree>::start_byte ](
    node: &tree_sitter::Node<'tree>,
) -> (start: usize)
    ensures
        start == node_syntax(*node).start_byte,
;

/// `tree_sitter::Node::end_byte` gives the offset at which the node ends.
pub assume_specification<'tree>[ tree_sitter::Node::<'tree>::end_byte ](
    node: &tree_sitter::Node<'tree>,
) -> (end: usize)
    ensures
        end == node_syntax(*node).end_byte,
;

/// `tree_sitter::Node::child_count` gives the number of children.
pub assume_specification<'tree>[ tree_sitter::Node::<'tree>::child_count ](
    node: &tree_sitter::Node<'tree>,
) -> (count: usize)
    ensures
        count == node_syntax(*node).children.len(),
;

/// `tree_sitter::Node::child` gives the child at an index, where zero is the first one.
pub assume_specification<'tree>[ tree_sitter::Node::<'tree>::child ](
    node: &tree_sitter::Node<'tree>,
    i: usize,
) -> (child: Option<tree_sitter::Node<'tree>>)
    requires
        i < node_syntax(*node).children.len(),
    ensures
        child is Some,
        node_syntax(child->0) == node_syntax(*node).children[i as int],
;

/// The number of nodes in a tree.
pub open spec fn node_count(syntax: Syntax) -> nat
    decreases syntax, 1nat, 0nat,
{
    1 + forest_node_count(syntax.children, syntax.children.len())
}

/// The number of nodes in the first `n` trees of `forest`.
pub open spec fn forest_node_count(forest: Seq<Syntax>, n: nat) -> nat
    decreases forest, 0nat, n,
{
    if n == 0 || n > forest.len() {
        0
    } else {
        forest_node_count(forest, (n - 1) as nat) + node_count(forest[n - 1])
    }
}

proof fn lemma_forest_node_count_prefix(a: Seq<Syntax>, b: Seq<Syntax>, n: nat)
    requires
        n <= a.len(),
    ensures
        forest_node_count(a + b, n) == forest_node_count(a, n),
    decreases n,
{
    if n > 0 {
        lemma_forest_node_count_prefix(a, b, (n - 1) as nat);
    }
}

proof fn lemma_forest_node_count_append(a: Seq<Syntax>, b: Seq<Syntax>, n: nat)
    requires
        n <= b.len(),
    ensures
        forest_node_count(a + b, a.len() + n) == forest_node_count(a, a.len())
            + forest_node_count(b, n),
    decreases n,
{
    if n == 0 {
        lemma_forest_node_count_prefix(a, b, a.len());
    } else {
        lemma_forest_node_count_append(a, b, (n - 1) as nat);
        assert((a + b)[a.len() + n - 1] == b[n - 1]);
    }
}

proof fn lemma_forest_node_count_grows(forest: Seq<Syntax>, m: nat, n: nat)
    requires
        m <= n <= forest.len(),
    ensures
        forest_node_count(forest, m) <= forest_node_count(forest, n),
    decreases n,
{
    if m < n {
        lemma_forest_node_count_grows(forest, m, (n - 1) as nat);
    }
}

/// `node`, at position `at`, is the top of `forest[at]`, and its children are the positions in
/// `forest` of the trees below it.
spec fn mirrors(node: SyntaxNode, forest: Seq<Syntax>, at: int) -> bool {
    let syntax = forest[at];
    &&& node.kind@ == syntax.kind
    &&& node.named == syntax.named
    &&& node.has_error == syntax.has_error
    &&& node.start_byte == syntax.start_byte
    &&& node.end_byte == syntax.end_byte
    &&& node.children@.len() == syntax.children.len()
    &&& forall|k: int|
        #![trigger node.children@[k]]
        0 <= k < node.children@.len() ==> at < node.children@[k] < forest.len()
            && forest[node.children@[k] as int] == syntax.children[k]
}

proof fn lemma_mirrored_subtree(nodes: Seq<SyntaxNode>, forest: Seq<Syntax>, at: int)
    requires
        nodes.len() == forest.len(),
        0 <= at < nodes.len(),
        forall|i: int| 0 <= i < nodes.len() ==> mirrors(#[trigger] nodes[i], forest, i),
    ensures
        subtree(nodes, at) == forest[at],
    decreases nodes.len() - at,
{
    assert(mirrors(nodes[at], forest, at));
    assert forall|k: int| 0 <= k < nodes[at].children@.len() implies #[trigger] subtree(
        nodes,
        at,
    ).children[k] == forest[at].children[k] by {
        lemma_mirrored_subtree(nodes, forest, nodes[at].children@[k] as int);
    }
    assert(subtree(nodes, at).children =~= forest[at].children);
}

/// The trees below each of `nodes`.
spec fn forest_of(nodes: Seq<tree_sitter::Node<'_>>) -> Seq<Syntax> {
    Seq::new(nodes.len(), |i: int| node_syntax(nodes[i]))
}

/// Copies the tree below `root` into a list of nodes, level by level.
pub(crate) fn copy_tree(root: tree_sitter::Node<'_>) -> (tree: SyntaxTree)
    ensures
        tree.well_formed(),
        tree@ == node_syntax(root),
{
    let mut pending: Vec<tree_sitter::Node<'_>> = Vec::new();
    let mut nodes: Vec<SyntaxNode> = Vec::new();
    pending.push(root);
    let mut at: usize = 0;
    while at < pending.len()
        invariant
            nodes@.len() == at,
            0 < pending@.len(),
            at <= pending@.len(),
            pending@[0] == root,
            forall|i: int|
                0 <= i < at ==> mirrors(#[trigger] nodes@[i], forest_of(pending@), i),
        decreases
            forest_node_count(forest_of(pending@), pending@.len()) - forest_node_count(
                forest_of(pending@),
                at as nat,
            ),
    {
        let ghost before = pending@;
        let ghost syntax = node_syntax(pending@[at as int]);
        let count: usize = pending[at].child_count();
        let mut children: Vec<usize> = Vec::new();
        let mut next: usize = 0;
        while next < count
            invariant
                at < before.len(),
                count == syntax.children.len(),
                syntax == node_syntax(before[at as int]),
                next <= count,
                pending@.len() == before.len() + next,
                children@.len() == next,
                forall|i: int| 0 <= i < before.len() ==> pending@[i] == before[i],
                forall|k: int|
                    #![trigger children@[k]]
                    0 <= k < next ==> children@[k] == before.len() + k && node_syntax(
                        pending@[before.len() + k],
                    ) == syntax.children[k],
            decreases count - next,
        {
            let child = pending[at].child(next);
            children.push(pending.len());
            pending.push(child.unwrap());
            next += 1;
        }
        proof {
            let old_forest = forest_of(before);
            let forest = forest_of(pending@);
            assert(forest =~= old_forest + syntax.children) by {
                assert forall|k: int| 0 <= k < count implies #[trigger] forest[before.len() + k]
                    == syntax.children[k] by {
                    assert(children@[k] == before.len() + k);
                }
                assert forall|i: int| before.len() <= i < forest.len() implies forest[i] == (
                old_forest + syntax.children)[i] by {
                    assert(forest[before.len() + (i - before.len())] == syntax.children[i
                        - before.len()]);
                }
            }
            lemma_forest_node_count_append(old_forest, syntax.children, syntax.children.len());
            lemma_forest_node_count_prefix(old_forest, syntax.children, at as nat);
            lemma_forest_node_count_prefix(old_forest, syntax.children, (at + 1) as nat);
            lemma_forest_node_count_grows(forest, (at + 1) as nat, forest.len());
            assert(old_forest[at as int] == syntax);
            assert(forest_node_count(old_forest, (at + 1) as nat) == forest_node_count(
                old_forest,
                at as nat,
            ) + node_count(syntax));
            assert(node_count(syntax) == 1 + forest_node_count(
                syntax.children,
                syntax.children.len(),
            ));
            assert forall|i: int| 0 <= i < at implies mirrors(#[trigger] nodes@[i], forest, i) by {
                assert(mirrors(nodes@[i], old_forest, i));
            }
        }
        let node = &pending[at];
        let copied = SyntaxNode {
            kind: node.kind().to_owned(),
            named: node.is_named(),
            has_error: node.has_error(),
            start_byte: node.start_byte(),
            end_byte: node.end_byte(),
            children,
        };
        assert(mirrors(copied, forest_of(pending@), at as int));
        nodes.push(copied);
        at += 1;
    }
    let tree = SyntaxTree { nodes };
    proof {
        let forest = forest_of(pending@);
        assert forall|i: int, k: int|
            #![trigger tree.nodes@[i].children@[k]]
            0 <= i < tree.nodes@.len() && 0 <= k < tree.nodes@[i].children@.len() implies i
            < tree.nodes@[i].children@[k] < tree.nodes@.len() by {
            assert(mirrors(tree.nodes@[i], forest, i));
        }
        lemma_mirrored_subtree(tree.nodes@, forest, 0);
    }
    tree
}

/// The tree below a node is what the list of nodes says: its fields are those of the node, and its
/// children are the trees below the nodes that it names.
pub proof fn tree_is_what_its_nodes_say(tree: SyntaxTree, at: int)
    requires
        tree.well_formed(),
        0 <= at < tree.nodes@.len(),
    ensures
        tree@ == subtree(tree.nodes@, 0),
        subtree(tree.nodes@, at).kind == tree.nodes@[at].kind@,
        subtree(tree.nodes@, at).named == tree.nodes@[at].named,
        subtree(tree.nodes@, at).has_error == tree.nodes@[at].has_error,
        subtree(tree.nodes@, at).start_byte == tree.nodes@[at].start_byte,
        subtree(tree.nodes@, at).end_byte == tree.nodes@[at].end_byte,
        subtree(tree.nodes@, at).children.len() == tree.nodes@[at].children@.len(),
        forall|k: int|
            0 <= k < tree.nodes@[at].children@.len() ==> #[trigger] subtree(
                tree.nodes@,
                at,
            ).children[k] == subtree(tree.nodes@, tree.nodes@[at].children@[k] as int),
{
    assert forall|k: int| 0 <= k < tree.nodes@[at].children@.len() implies #[trigger] subtree(
        tree.nodes@,
        at,
    ).children[k] == subtree(tree.nodes@, tree.nodes@[at].children@[k] as int) by {
        assert(at < tree.nodes@[at].children@[k] < tree.nodes@.len());
    }
}

} // verus!
