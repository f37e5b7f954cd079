use crate::ast::symbol::Span;
use crate::text::{optional_text, slice_text, str_eq, text_between};
use std::ops::Range;
use vstd::prelude::*;
use vstd::string::StringSliceAdditionalSpecFns;

verus! {

/// A syntax tree as a mathematical value: a node with its grammar kind, the
/// field under which its parent holds it, its position in the text, and its
/// children from left to right.
pub struct NodeView {
    pub kind: Seq<char>,
    pub field: Option<Seq<char>>,
    pub start_row: nat,
    pub end_row: nat,
    pub start_byte: nat,
    pub end_byte: nat,
    pub children: Seq<NodeView>,
}

impl NodeView {
    /// The bytes of the text that the node covers.
    pub open spec fn span(self) -> Span {
        Span { start: self.start_byte, end: self.end_byte }
    }

    /// The text that the node covers, where its bytes spell one.
    pub open spec fn text(self, source: Seq<u8>) -> Option<Seq<char>> {
        text_between(source, self.start_byte, self.end_byte)
    }

    /// The first child that its parent holds under the field `name`.
    pub open spec fn child_by_field_name(self, name: Seq<char>) -> Option<NodeView> {
        first_where(self.children, |child: NodeView| child.field == Some(name))
    }

    /// The first child of the grammar kind `kind`.
    pub open spec fn first_child_of_kind(self, kind: Seq<char>) -> Option<NodeView> {
        first_where(self.children, |child: NodeView| child.kind == kind)
    }

    /// Whether the 1-based line numbers of the node and of all nodes below it
    /// can be held in a `usize`.
    pub open spec fn lines_fit(self) -> bool
        decreases self,
    {
        &&& self.start_row < usize::MAX
        &&& self.end_row < usize::MAX
        &&& forall|i: int| 0 <= i < self.children.len() ==> (#[trigger] self.children[i]).lines_fit()
    }
}

/// The leftmost of `trees` that is `wanted`.
pub open spec fn first_where(trees: Seq<NodeView>, wanted: spec_fn(NodeView) -> bool) -> Option<NodeView>
    decreases trees.len(),
{
    if trees.len() == 0 {
        None
    } else if wanted(trees.first()) {
        Some(trees.first())
    } else {
        first_where(trees.drop_first(), wanted)
    }
}

/// `first_where` finds a tree exactly when one is wanted, and then the one with
/// the least index.
pub proof fn first_where_is_leftmost(trees: Seq<NodeView>, wanted: spec_fn(NodeView) -> bool)
    ensures
        match first_where(trees, wanted) {
            Some(found) => exists|i: int|
                0 <= i < trees.len() && trees[i] == found && wanted(found) && forall|j: int|
                    0 <= j < i ==> !wanted(#[trigger] trees[j]),
            None => forall|j: int| 0 <= j < trees.len() ==> !wanted(#[trigger] trees[j]),
        },
    decreases trees.len(),
{
    if trees.len() == 0 {
    } else if wanted(trees.first()) {
        assert(trees[0] == trees.first());
    } else {
        let rest = trees.drop_first();
        first_where_is_leftmost(rest, wanted);
        assert(forall|j: int| 0 <= j < rest.len() ==> rest[j] == trees[j + 1]);
        match first_where(rest, wanted) {
            Some(found) => {
                let i = choose|i: int|
                    0 <= i < rest.len() && rest[i] == found && wanted(found) && forall|j: int|
                        0 <= j < i ==> !wanted(#[trigger] rest[j]);
                assert forall|j: int| 0 <= j < i + 1 implies !wanted(#[trigger] trees[j]) by {
                    if j > 0 {
                        assert(rest[j - 1] == trees[j]);
                    }
                }
                assert(trees[i + 1] == found);
            },
            None => {
                assert forall|j: int| 0 <= j < trees.len() implies !wanted(#[trigger] trees[j]) by {
                    if j > 0 {
                        assert(rest[j - 1] == trees[j]);
                    }
                }
            },
        }
    }
}

/// A node of a syntax tree, with the nodes below it.
#[derive(Debug)]
pub struct SyntaxNode {
    /// The grammar's name for this kind of node.
    pub kind: String,
    /// The field under which the parent holds this node, if it holds it under one.
    pub field: Option<String>,
    /// The row, counted from 0, on which the node starts.
    pub start_row: usize,
    /// The row, counted from 0, on which the node ends.
    pub end_row: usize,
    /// The offset of the node's first byte.
    pub start_byte: usize,
    /// The offset just past the node's last byte.
    pub end_byte: usize,
    /// The nodes directly below this one, from left to right.
    pub children: Vec<SyntaxNode>,
}

impl View for SyntaxNode {
    type V = NodeView;

    open spec fn view(&self) -> NodeView
        decreases self,
    {
        NodeView {
            kind: self.kind@,
            field: optional_text(self.field),
            start_row: self.start_row as nat,
            end_row: self.end_row as nat,
            start_byte: self.start_byte as nat,
            end_byte: self.end_byte as nat,
            children: trees_of(self.children@),
        }
    }
}

/// The trees of a list of nodes, in the list's order.
pub open spec fn trees_of(nodes: Seq<SyntaxNode>) -> Seq<NodeView>
    decreases nodes,
{
    if nodes.len() == 0 {
        Seq::empty()
    } else {
        trees_of(nodes.drop_last()).push(nodes.last()@)
    }
}

/// `trees_of` keeps the length and maps each node to its tree.
pub proof fn trees_of_each(nodes: Seq<SyntaxNode>)
    ensures
        trees_of(nodes).len() == nodes.len(),
        forall|i: int| 0 <= i < nodes.len() ==> trees_of(nodes)[i] == nodes[i]@,
    decreases nodes.len(),
{
    if nodes.len() > 0 {
        trees_of_each(nodes.drop_last());
        assert(trees_of(nodes) == trees_of(nodes.drop_last()).push(nodes.last()@));
    } else {
        assert(trees_of(nodes) == Seq::<NodeView>::empty());
    }
}

/// The tree of an optional node.
pub open spec fn optional_tree(node: Option<&SyntaxNode>) -> Option<NodeView> {
    match node {
        Some(n) => Some(n@),
        None => None,
    }
}

impl SyntaxNode {
    /// The tree of a node has the trees of the node's children as its children.
    pub proof fn view_children(self)
        ensures
            self@.children.len() == self.children.len(),
            forall|i: int| 0 <= i < self.children.len() ==> self@.children[i] == self.children[i]@,
    {
        trees_of_each(self.children@);
    }

    /// Whether the node is of the grammar kind `kind`.
    pub fn is_kind(&self, kind: &str) -> (same: bool)
        ensures
            same == (self@.kind == kind@),
    {
        str_eq(self.kind.as_str(), kind)
    }

    /// Whether the parent holds the node under the field `name`.
    pub fn has_field(&self, name: &str) -> (same: bool)
        ensures
            same == (self@.field == Some(name@)),
    {
        match &self.field {
            Some(field) => str_eq(field.as_str(), name),
            None => false,
        }
    }

    /// The bytes of the text that the node covers.
    pub fn byte_range(&self) -> (range: Range<usize>)
        ensures
            range.start == self.start_byte,
            range.end == self.end_byte,
    {
        self.start_byte..self.end_byte
    }

    /// The number of nodes directly below this one.
    pub fn child_count(&self) -> (count: usize)
        ensures
            count == self@.children.len(),
    {
        proof {
            self.view_children();
        }
        self.children.len()
    }

    /// The child at position `i`, counted from 0.
    pub fn child(&self, i: usize) -> (child: Option<&SyntaxNode>)
        ensures
            optional_tree(child) == if i < self@.children.len() {
                Some(self@.children[i as int])
            } else {
                None
            },
    {
        proof {
            self.view_children();
        }
        if i < self.children.len() {
            Some(&self.children[i])
        } else {
            None
        }
    }

    /// The first child that this node holds under the field `name`.
    pub fn child_by_field_name(&self, name: &str) -> (child: Option<&SyntaxNode>)
        ensures
            optional_tree(child) == self@.child_by_field_name(name@),
    {
        let ghost wanted = |child: NodeView| child.field == Some(name@);
        proof {
            self.view_children();
            assert(self@.children.skip(0) == self@.children);
        }
        let mut i: usize = 0;
        while i < self.children.len()
            invariant
                i <= self.children.len(),
                self@.children.len() == self.children.len(),
                forall|k: int| 0 <= k < self.children.len() ==> self@.children[k] == self.children[k]@,
                wanted == (|child: NodeView| child.field == Some(name@)),
                first_where(self@.children, wanted) == first_where(
                    self@.children.skip(i as int),
                    wanted,
                ),
            decreases self.children.len() - i,
        {
            proof {
                let rest = self@.children.skip(i as int);
                assert(rest.first() == self.children[i as int]@);
                assert(rest.drop_first() == self@.children.skip(i + 1));
            }
            if self.children[i].has_field(name) {
                return Some(&self.children[i]);
            }
            i = i + 1;
        }
        None
    }

    /// The first child of the grammar kind `kind`.
    pub fn first_child_of_kind(&self, kind: &str) -> (child: Option<&SyntaxNode>)
        ensures
            optional_tree(child) == self@.first_child_of_kind(kind@),
    {
        let ghost wanted = |child: NodeView| child.kind == kind@;
        proof {
            self.view_children();
            assert(self@.children.skip(0) == self@.children);
        }
        let mut i: usize = 0;
        while i < self.children.len()
            invariant
                i <= self.children.len(),
                self@.children.len() == self.children.len(),
                forall|k: int| 0 <= k < self.children.len() ==> self@.children[k] == self.children[k]@,
                wanted == (|child: NodeView| child.kind == kind@),
                first_where(self@.children, wanted) == first_where(
                    self@.children.skip(i as int),
                    wanted,
                ),
            decreases self.children.len() - i,
        {
            proof {
                let rest = self@.children.skip(i as int);
                assert(rest.first() == self.children[i as int]@);
                assert(rest.drop_first() == self@.children.skip(i + 1));
            }
            if self.children[i].is_kind(kind) {
                return Some(&self.children[i]);
            }
            i = i + 1;
        }
        None
    }

    /// The text that the node covers in `source`, where its bytes spell one.
    pub fn utf8_text(&self, source: &str) -> (text: Option<String>)
        ensures
            optional_text(text) == self@.text(source.spec_bytes()),
    {
        slice_text(source, self.start_byte, self.end_byte)
    }
}

} // verus!
