//! A read-only syntax tree as plain data: for each node its kind, the bytes of the source it
//! covers, the row on which it starts, and its children in order, each with the field name
//! under which the parent holds it.

use crate::text::{has_span, same_text, slice_span, span_in, span_text};
use vstd::prelude::*;

verus! {

/// The mathematical tree that a [`SyntaxNode`] stands for.
pub struct SyntaxTree {
    pub kind: Seq<char>,
    pub start_byte: nat,
    pub end_byte: nat,
    pub start_row: nat,
    pub children: Seq<Branch>,
}

/// One child of a [`SyntaxTree`], with the field name under which the parent holds it.
pub struct Branch {
    pub field: Option<Seq<char>>,
    pub tree: SyntaxTree,
}

/// A node of a syntax tree, with everything below it.
#[derive(Debug)]
pub struct SyntaxNode {
    /// The name of the node's kind, such as `identifier`.
    pub kind: String,
    /// Where the node starts in the UTF-8 bytes of the source.
    pub start_byte: usize,
    /// Where the node ends in the UTF-8 bytes of the source.
    pub end_byte: usize,
    /// The row on which the node starts; the first row is 0.
    pub start_row: usize,
    /// The node's children, in source order.
    pub children: Vec<Child>,
}

/// A child of a [`SyntaxNode`].
#[derive(Debug)]
pub struct Child {
    /// The field name under which the parent holds this child, if it has one.
    pub field: Option<String>,
    pub node: SyntaxNode,
}

/// The text of an optional field name.
pub open spec fn field_view(field: Option<String>) -> Option<Seq<char>> {
    match field {
        Some(name) => Some(name@),
        None => None,
    }
}

/// The index of the first of `branches`, from `from` on, that is held under the field `name`.
pub open spec fn field_from(branches: Seq<Branch>, name: Seq<char>, from: int) -> Option<int>
    decreases branches.len() - from,
{
    if from < 0 || from >= branches.len() {
        None
    } else if branches[from].field == Some(name) {
        Some(from)
    } else {
        field_from(branches, name, from + 1)
    }
}

/// The index of the first of `branches`, from `from` on, whose node is of the kind `kind`.
pub open spec fn kind_from(branches: Seq<Branch>, kind: Seq<char>, from: int) -> Option<int>
    decreases branches.len() - from,
{
    if from < 0 || from >= branches.len() {
        None
    } else if branches[from].tree.kind == kind {
        Some(from)
    } else {
        kind_from(branches, kind, from + 1)
    }
}

impl SyntaxTree {
    /// The source text that the node covers.
    pub open spec fn text(self, source: Seq<char>) -> Seq<char> {
        span_text(source, self.start_byte, self.end_byte)
    }

    /// The 1-based line on which the node starts.
    pub open spec fn line(self) -> nat {
        self.start_row + 1
    }

    /// The node itself fits `source`: its bytes can be cut out of the source, and its line
    /// number is one that a `usize` can hold.
    pub open spec fn sits_in(self, source: Seq<char>) -> bool {
        &&& span_in(source, self.start_byte, self.end_byte)
        &&& self.start_row < usize::MAX
    }

    /// The tree is a tree of `source`: every node of it fits the source.
    pub open spec fn fits(self, source: Seq<char>) -> bool
        decreases self,
    {
        &&& self.sits_in(source)
        &&& forall|i: int|
            0 <= i < self.children.len() ==> (#[trigger] self.children[i]).tree.fits(source)
    }

    /// The first child held under the field `name`.
    pub open spec fn field(self, name: Seq<char>) -> Option<SyntaxTree> {
        match field_from(self.children, name, 0) {
            Some(i) => Some(self.children[i].tree),
            None => None,
        }
    }

    /// The first child of the kind `kind`.
    pub open spec fn first_of_kind(self, kind: Seq<char>) -> Option<SyntaxTree> {
        match kind_from(self.children, kind, 0) {
            Some(i) => Some(self.children[i].tree),
            None => None,
        }
    }

    /// The tree cut off below `depth` levels of children: with `depth` 0 the node alone.
    pub open spec fn pruned(self, depth: nat) -> SyntaxTree
        decreases depth,
    {
        SyntaxTree {
            kind: self.kind,
            start_byte: self.start_byte,
            end_byte: self.end_byte,
            start_row: self.start_row,
            children: if depth == 0 {
                Seq::empty()
            } else {
                Seq::new(
                    self.children.len(),
                    |i: int|
                        Branch {
                            field: self.children[i].field,
                            tree: self.children[i].tree.pruned((depth - 1) as nat),
                        },
                )
            },
        }
    }
}

impl SyntaxTree {
    /// What cutting keeps: the node itself and, unless everything below it is cut, each
    /// child's field name, with the child cut one level higher.
    pub proof fn lemma_pruned_unfolds(self, depth: nat)
        ensures
            self.pruned(depth).kind == self.kind,
            self.pruned(depth).start_byte == self.start_byte,
            self.pruned(depth).end_byte == self.end_byte,
            self.pruned(depth).start_row == self.start_row,
            depth == 0 ==> self.pruned(depth).children.len() == 0,
            depth > 0 ==> self.pruned(depth).children.len() == self.children.len(),
            depth > 0 ==> forall|i: int|
                0 <= i < self.children.len() ==> (#[trigger] self.pruned(depth).children[i])
                    == (Branch {
                    field: self.children[i].field,
                    tree: self.children[i].tree.pruned((depth - 1) as nat),
                }),
    {
    }

    /// A tree that fits a text still fits it when it is cut.
    pub proof fn lemma_pruned_fits(self, depth: nat, source: Seq<char>)
        requires
            self.fits(source),
        ensures
            self.pruned(depth).fits(source),
        decreases depth,
    {
        self.lemma_pruned_unfolds(depth);
        let cut = self.pruned(depth);
        if depth > 0 {
            assert forall|i: int| 0 <= i < cut.children.len() implies (#[trigger] cut.children[i]).tree.fits(
                source,
            ) by {
                assert(self.children[i].tree.fits(source));
                self.children[i].tree.lemma_pruned_fits((depth - 1) as nat, source);
            }
        }
    }

    /// Cut below its children, a node holds the same child under a field, itself cut.
    pub proof fn lemma_pruned_field(self, depth: nat, name: Seq<char>)
        requires
            depth > 0,
        ensures
            self.pruned(depth).field(name) == match self.field(name) {
                Some(child) => Some(child.pruned((depth - 1) as nat)),
                None => None,
            },
    {
        self.lemma_pruned_unfolds(depth);
        lemma_field_from_pruned(self, depth, name, 0);
        lemma_field_from(self.children, name, 0);
    }

    /// Cut below its children, a node has the same first child of a kind, itself cut.
    pub proof fn lemma_pruned_first_of_kind(self, depth: nat, kind: Seq<char>)
        requires
            depth > 0,
        ensures
            self.pruned(depth).first_of_kind(kind) == match self.first_of_kind(kind) {
                Some(child) => Some(child.pruned((depth - 1) as nat)),
                None => None,
            },
    {
        self.lemma_pruned_unfolds(depth);
        lemma_kind_from_pruned(self, depth, kind, 0);
        lemma_kind_from(self.children, kind, 0);
    }
}

proof fn lemma_field_from_pruned(tree: SyntaxTree, depth: nat, name: Seq<char>, from: int)
    requires
        depth > 0,
        0 <= from,
    ensures
        field_from(tree.pruned(depth).children, name, from) == field_from(
            tree.children,
            name,
            from,
        ),
    decreases tree.children.len() - from,
{
    tree.lemma_pruned_unfolds(depth);
    if from < tree.children.len() && tree.children[from].field != Some(name) {
        lemma_field_from_pruned(tree, depth, name, from + 1);
    }
}

/// Cut below its children, a node has its first child of a kind at the same index.
pub proof fn lemma_kind_from_pruned(tree: SyntaxTree, depth: nat, kind: Seq<char>, from: int)
    requires
        depth > 0,
        0 <= from,
    ensures
        kind_from(tree.pruned(depth).children, kind, from) == kind_from(tree.children, kind, from),
    decreases tree.children.len() - from,
{
    tree.lemma_pruned_unfolds(depth);
    if from < tree.children.len() {
        tree.children[from].tree.lemma_pruned_unfolds((depth - 1) as nat);
        if tree.children[from].tree.kind != kind {
            lemma_kind_from_pruned(tree, depth, kind, from + 1);
        }
    }
}

/// A field search finds a child of the sequence, held under the name, with none before it.
pub proof fn lemma_field_from(branches: Seq<Branch>, name: Seq<char>, from: int)
    requires
        0 <= from,
    ensures
        match field_from(branches, name, from) {
            Some(i) => {
                &&& from <= i < branches.len()
                &&& branches[i].field == Some(name)
                &&& forall|j: int| from <= j < i ==> (#[trigger] branches[j]).field != Some(name)
            },
            None => forall|j: int|
                from <= j < branches.len() ==> (#[trigger] branches[j]).field != Some(name),
        },
    decreases branches.len() - from,
{
    if from < branches.len() && branches[from].field != Some(name) {
        lemma_field_from(branches, name, from + 1);
    }
}

/// A kind search finds a child of the sequence, of that kind, with none before it.
pub proof fn lemma_kind_from(branches: Seq<Branch>, kind: Seq<char>, from: int)
    requires
        0 <= from,
    ensures
        match kind_from(branches, kind, from) {
            Some(i) => {
                &&& from <= i < branches.len()
                &&& branches[i].tree.kind == kind
                &&& forall|j: int| from <= j < i ==> (#[trigger] branches[j]).tree.kind != kind
            },
            None => forall|j: int|
                from <= j < branches.len() ==> (#[trigger] branches[j]).tree.kind != kind,
        },
    decreases branches.len() - from,
{
    if from < branches.len() && branches[from].tree.kind != kind {
        lemma_kind_from(branches, kind, from + 1);
    }
}

impl SyntaxNode {
    /// The tree that the node stands for.
    pub open spec fn tree(&self) -> SyntaxTree
        decreases self,
    {
        SyntaxTree {
            kind: self.kind@,
            start_byte: self.start_byte as nat,
            end_byte: self.end_byte as nat,
            start_row: self.start_row as nat,
            children: Seq::new(
                self.children.len() as nat,
                |i: int|
                    if 0 <= i < self.children.len() {
                        Branch {
                            field: field_view(self.children[i].field),
                            tree: self.children[i].node.tree(),
                        }
                    } else {
                        arbitrary()
                    },
            ),
        }
    }

    /// The tree of a node holds the trees of its children, one for one.
    pub proof fn lemma_tree_unfolds(&self)
        ensures
            self@.kind == self.kind@,
            self@.start_byte == self.start_byte,
            self@.end_byte == self.end_byte,
            self@.start_row == self.start_row,
            self@.children.len() == self.children.len(),
            forall|i: int|
                0 <= i < self.children.len() ==> (#[trigger] self@.children[i]) == (Branch {
                    field: field_view(self.children[i].field),
                    tree: self.children[i].node@,
                }),
    {
    }

    /// Tells whether the node is of the kind `kind`.
    pub fn is_kind(&self, kind: &str) -> (r: bool)
        ensures
            r == (self@.kind == kind@),
    {
        same_text(self.kind.as_str(), kind)
    }

    /// The source text that the node covers.
    pub fn text<'a>(&self, source: &'a str) -> (r: &'a str)
        requires
            self@.sits_in(source@),
        ensures
            r@ == self@.text(source@),
    {
        slice_span(source, self.start_byte, self.end_byte)
    }

    /// The 1-based line on which the node starts.
    pub fn line(&self) -> (r: usize)
        requires
            self@.start_row < usize::MAX,
        ensures
            r == self@.line(),
    {
        self.start_row + 1
    }

    /// Tells whether the node itself fits `source`.
    pub fn sits_in(&self, source: &str) -> (r: bool)
        ensures
            r == self@.sits_in(source@),
    {
        has_span(source, self.start_byte, self.end_byte) && self.start_row < usize::MAX
    }

    /// Tells whether the tree is a tree of `source`.
    pub fn fits(&self, source: &str) -> (r: bool)
        ensures
            r == self@.fits(source@),
        decreases self,
    {
        proof {
            self.lemma_tree_unfolds();
        }
        if !self.sits_in(source) {
            return false;
        }
        let mut i: usize = 0;
        while i < self.children.len()
            invariant
                i <= self.children.len(),
                self@.children.len() == self.children.len(),
                self@.sits_in(source@),
                forall|j: int|
                    0 <= j < self.children.len() ==> (#[trigger] self@.children[j]).tree
                        == self.children[j].node@,
                forall|j: int| 0 <= j < i ==> (#[trigger] self@.children[j]).tree.fits(source@),
            decreases self.children.len() - i,
        {
            if !self.children[i].node.fits(source) {
                assert(!self@.children[i as int].tree.fits(source@));
                return false;
            }
            i += 1;
        }
        true
    }

    /// The first child held under the field `name`.
    pub fn child_by_field_name(&self, name: &str) -> (r: Option<&SyntaxNode>)
        ensures
            match r {
                Some(child) => self@.field(name@) == Some(child@),
                None => self@.field(name@) is None,
            },
    {
        proof {
            self.lemma_tree_unfolds();
        }
        let mut i: usize = 0;
        while i < self.children.len()
            invariant
                i <= self.children.len(),
                self@.children.len() == self.children.len(),
                forall|j: int|
                    0 <= j < self.children.len() ==> (#[trigger] self@.children[j]) == (Branch {
                        field: field_view(self.children[j].field),
                        tree: self.children[j].node@,
                    }),
                field_from(self@.children, name@, 0) == field_from(self@.children, name@, i as int),
            decreases self.children.len() - i,
        {
            let held = match &self.children[i].field {
                Some(field) => same_text(field.as_str(), name),
                None => false,
            };
            assert(held == (self@.children[i as int].field == Some(name@)));
            if held {
                return Some(&self.children[i].node);
            }
            i += 1;
        }
        None
    }

    /// The first child of the kind `kind`.
    pub fn first_child_of_kind(&self, kind: &str) -> (r: Option<&SyntaxNode>)
        ensures
            match r {
                Some(child) => self@.first_of_kind(kind@) == Some(child@),
                None => self@.first_of_kind(kind@) is None,
            },
    {
        proof {
            self.lemma_tree_unfolds();
        }
        match self.first_index_of_kind(kind) {
            Some(i) => Some(&self.children[i].node),
            None => None,
        }
    }

    /// The index of the first child of the kind `kind`.
    pub fn first_index_of_kind(&self, kind: &str) -> (r: Option<usize>)
        ensures
            match r {
                Some(i) => i < self.children.len() && kind_from(self@.children, kind@, 0) == Some(
                    i as int,
                ),
                None => kind_from(self@.children, kind@, 0) is None,
            },
    {
        proof {
            self.lemma_tree_unfolds();
        }
        let mut i: usize = 0;
        while i < self.children.len()
            invariant
                i <= self.children.len(),
                self@.children.len() == self.children.len(),
                forall|j: int|
                    0 <= j < self.children.len() ==> (#[trigger] self@.children[j]) == (Branch {
                        field: field_view(self.children[j].field),
                        tree: self.children[j].node@,
                    }),
                kind_from(self@.children, kind@, 0) == kind_from(self@.children, kind@, i as int),
            decreases self.children.len() - i,
        {
            proof {
                self.children[i as int].node.lemma_tree_unfolds();
            }
            if self.children[i].node.is_kind(kind) {
                return Some(i);
            }
            i += 1;
        }
        None
    }
}

impl View for SyntaxNode {
    type V = SyntaxTree;

    open spec fn view(&self) -> SyntaxTree {
        self.tree()
    }
}

} // verus!
