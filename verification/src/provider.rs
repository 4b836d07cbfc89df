//! The syntax tree provider: tree-sitter with the Python grammar.
//!
//! Nothing here is proved of tree-sitter itself. Its types are carried through as opaque
//! values, and what its functions return is given a name: [`node_syntax`] for the tree under
//! a node, [`python_syntax`] for the tree that a text parses to. The contracts of the calls
//! into tree-sitter say how their results read in those names, and [`snapshot`], which is
//! verified against them, copies the top of a tree into a [`SyntaxNode`].

use crate::syntax::{field_view, Child, SyntaxNode, SyntaxTree};
use tree_sitter::{LanguageError, Node, Parser, Tree};
use vstd::prelude::*;

verus! {

/// `tree_sitter::Node`: a node of a syntax tree, borrowed from the tree.
#[verifier::external_type_specification]
#[verifier::external_body]
pub struct ExNode<'tree>(Node<'tree>);

/// `tree_sitter::Tree`: a syntax tree.
#[verifier::external_type_specification]
#[verifier::external_body]
pub struct ExTree(Tree);

/// `tree_sitter::Parser`: a parser, with the grammar that it was given.
#[verifier::external_type_specification]
#[verifier::external_body]
pub struct ExParser(Parser);

/// `tree_sitter::LanguageError`: why a parser did not take a grammar.
#[verifier::external_type_specification]
#[verifier::external_body]
pub struct ExLanguageError(LanguageError);

/// The tree under a node of tree-sitter: for the node and for everything below it, what
/// `kind`, `start_byte`, `end_byte` and `start_position` return, the children that `child`
/// returns, and for each child the name that `field_name_for_child` returns.
pub uninterp spec fn node_syntax(node: Node) -> SyntaxTree;

/// The tree under the root node of a tree of tree-sitter.
pub uninterp spec fn tree_syntax(tree: Tree) -> SyntaxTree;

/// The tree that `Parser::parse` builds for a text, on a parser that was just made and given
/// the Python grammar; `None` where it builds none.
pub uninterp spec fn python_syntax(source: Seq<char>) -> Option<SyntaxTree>;

/// The parser was just made by [`get_python_parser`]: it has the Python grammar and has
/// parsed nothing yet.
pub uninterp spec fn reads_python(parser: Parser) -> bool;

/// `Node::kind` returns the name of the node's kind.
pub assume_specification<'tree>[ Node::<'tree>::kind ](node: &Node<'tree>) -> (kind: &'tree str)
    ensures
        kind@ == node_syntax(*node).kind,
;

/// `Node::start_byte` returns the byte offset at which the node starts.
pub assume_specification<'tree>[ Node::<'tree>::start_byte ](node: &Node<'tree>) -> (byte: usize)
    ensures
        byte == node_syntax(*node).start_byte,
;

/// `Node::end_byte` returns the byte offset at which the node ends.
pub assume_specification<'tree>[ Node::<'tree>::end_byte ](node: &Node<'tree>) -> (byte: usize)
    ensures
        byte == node_syntax(*node).end_byte,
;

/// `Node::child_count` returns the number of the node's children.
pub assume_specification<'tree>[ Node::<'tree>::child_count ](node: &Node<'tree>) -> (count: u32)
    ensures
        count == node_syntax(*node).children.len(),
;

/// `Node::child` returns the child at the index `i`, counted from 0, and `None` where the
/// node has no more than `i` children.
pub assume_specification<'tree>[ Node::<'tree>::child ](node: &Node<'tree>, i: u32) -> (child:
    Option<Node<'tree>>)
    ensures
        match child {
            Some(c) => i < node_syntax(*node).children.len() && node_syntax(c) == node_syntax(
                *node,
            ).children[i as int].tree,
            None => i >= node_syntax(*node).children.len(),
        },
;

/// `Node::field_name_for_child` returns the field name under which the node holds the
/// child at the index `child_index`, and `None` where it holds that child under no name.
pub assume_specification<'tree>[ Node::<'tree>::field_name_for_child ](
    node: &Node<'tree>,
    child_index: u32,
) -> (name: Option<&'tree str>)
    ensures
        child_index < node_syntax(*node).children.len() ==> node_syntax(
            *node,
        ).children[child_index as int].field == match name {
            Some(text) => Some(text@),
            None => None,
        },
;

/// `Tree::root_node` returns the root node of the tree.
pub assume_specification<'tree>[ Tree::root_node ](tree: &'tree Tree) -> (root: Node<'tree>)
    ensures
        node_syntax(root) == tree_syntax(*tree),
;

/// `Node::start_position` returns the row and column at which the node starts; this is
/// the row, with 0 for the first.
#[verifier::external_body]
fn start_row(node: &Node) -> (row: usize)
    ensures
        row == node_syntax(*node).start_row,
{
    node.start_position().row
}

/// `Parser::new` makes a parser and `Parser::set_language` gives it the grammar that
/// `tree_sitter_python::LANGUAGE` stands for, or says why the parser cannot take it.
#[verifier::external_body]
pub(crate) fn get_python_parser() -> (parser: Result<Parser, LanguageError>)
    ensures
        parser matches Ok(p) ==> reads_python(p),
{
    let mut parser = Parser::new();
    let language: tree_sitter::Language = tree_sitter_python::LANGUAGE.into();
    parser.set_language(&language)?;
    Ok(parser)
}

/// `Parser::parse`, with no earlier tree to start from, builds the syntax tree of a text.
/// On a parser that [`get_python_parser`] just made, what it builds depends on the text
/// alone.
#[verifier::external_body]
fn parse_text(parser: &mut Parser, source: &str) -> (tree: Option<Tree>)
    requires
        reads_python(*old(parser)),
    ensures
        match tree {
            Some(t) => python_syntax(source@) == Some(tree_syntax(t)),
            None => python_syntax(source@) is None,
        },
{
    parser.parse(source, None)
}

/// `LanguageError` as text, as its `Display` writes it.
#[verifier::external_body]
fn language_error_text(error: &LanguageError) -> (text: String) {
    error.to_string()
}

/// How deep below the root the functions of a source file are read: the root's children
/// are the definitions, below them stand decorators and the function definition, below that
/// its name and parameter list, then the parameters, then the parts of each parameter.
pub const SCAN_DEPTH: usize = 5;

/// Copies a node of tree-sitter with `depth` levels of what is below it.
pub fn snapshot(node: &Node, depth: usize) -> (copy: SyntaxNode)
    ensures
        copy@ == node_syntax(*node).pruned(depth as nat),
    decreases depth,
{
    let ghost whole = node_syntax(*node);
    let mut children: Vec<Child> = Vec::new();
    if depth > 0 {
        let count: u32 = node.child_count();
        let mut i: u32 = 0;
        while i < count
            invariant
                i <= count,
                count == whole.children.len(),
                whole == node_syntax(*node),
                depth > 0,
                children.len() == i,
                forall|j: int|
                    0 <= j < i ==> field_view((#[trigger] children[j]).field)
                        == whole.children[j].field,
                forall|j: int|
                    0 <= j < i ==> (#[trigger] children[j]).node@ == whole.children[j].tree.pruned(
                        (depth - 1) as nat,
                    ),
            decreases count - i,
        {
            let child = node.child(i).unwrap();
            let field = match node.field_name_for_child(i) {
                Some(name) => Some(name.to_owned()),
                None => None,
            };
            children.push(Child { field, node: snapshot(&child, depth - 1) });
            i += 1;
        }
    }
    let copy = SyntaxNode {
        kind: node.kind().to_owned(),
        start_byte: node.start_byte(),
        end_byte: node.end_byte(),
        start_row: start_row(node),
        children,
    };
    proof {
        copy.lemma_tree_unfolds();
        assert(copy@.children =~= whole.pruned(depth as nat).children);
    }
    copy
}

/// What [`parse_source`] returns for a text.
pub open spec fn source_syntax(source: Seq<char>) -> Option<SyntaxTree> {
    match python_syntax(source) {
        Some(tree) => Some(tree.pruned(SCAN_DEPTH as nat)),
        None => None,
    }
}

/// Why [`parse_source`] returned no tree.
#[derive(Clone, Debug, PartialEq, Eq)]
pub enum ProviderError {
    /// The parser did not take the Python grammar; the text says why.
    Unavailable(String),
    /// The parser built no tree for the text.
    NoTree,
}

/// Parses a Python source text and copies the top [`SCAN_DEPTH`] levels of its syntax tree.
///
/// Whether the parser takes the grammar is for tree-sitter to say. Where it does, the
/// result depends on the text alone.
pub fn parse_source(source: &str) -> (parsed: Result<SyntaxNode, ProviderError>)
    ensures
        match parsed {
            Ok(root) => source_syntax(source@) == Some(root@),
            Err(ProviderError::NoTree) => source_syntax(source@) is None,
            Err(ProviderError::Unavailable(_)) => true,
        },
{
    let mut parser = match get_python_parser() {
        Ok(p) => p,
        Err(e) => {
            return Err(ProviderError::Unavailable(language_error_text(&e)));
        },
    };
    let tree = match parse_text(&mut parser, source) {
        Some(t) => t,
        None => {
            return Err(ProviderError::NoTree);
        },
    };
    let root = tree.root_node();
    Ok(snapshot(&root, SCAN_DEPTH))
}

} // verus!
