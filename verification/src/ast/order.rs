use crate::ast::symbol::SymbolView;
use crate::ast::syntax::NodeView;
use crate::ast::visitor::{own_symbol, walk, walk_each, LanguageRules};
use vstd::prelude::*;

verus! {

impl NodeView {
    /// The node and all nodes below it in document order: the node itself, then
    /// the nodes of each child's tree, from left to right.
    pub open spec fn nodes(self) -> Seq<NodeView>
        decreases self,
    {
        seq![self] + Self::nodes_each(self.children)
    }

    /// The nodes of each of `trees`, one tree after the other.
    pub open spec fn nodes_each(trees: Seq<NodeView>) -> Seq<NodeView>
        decreases trees,
    {
        if trees.len() == 0 {
            Seq::empty()
        } else {
            Self::nodes_each(trees.drop_last()) + trees.last().nodes()
        }
    }

    /// The node that is reached from this one by stepping down to the child at
    /// each position of `path` in turn, if all of these children are there.
    pub open spec fn at_path(self, path: Seq<int>) -> Option<NodeView>
        decreases path.len(),
    {
        if path.len() == 0 {
            Some(self)
        } else if 0 <= path.first() < self.children.len() {
            self.children[path.first()].at_path(path.drop_first())
        } else {
            None
        }
    }
}

/// The symbols that the rules of `V` give for each of `nodes` itself, in the
/// order of `nodes`.
pub open spec fn symbols_of_nodes<V: LanguageRules>(nodes: Seq<NodeView>, source: Seq<u8>) -> Seq<
    SymbolView,
>
    decreases nodes.len(),
{
    if nodes.len() == 0 {
        Seq::empty()
    } else {
        symbols_of_nodes::<V>(nodes.drop_last(), source) + own_symbol::<V>(nodes.last(), source)
    }
}

/// The symbols of two lists of nodes joined are the symbols of the first list
/// followed by those of the second.
pub proof fn symbols_of_nodes_add<V: LanguageRules>(
    first: Seq<NodeView>,
    second: Seq<NodeView>,
    source: Seq<u8>,
)
    ensures
        symbols_of_nodes::<V>(first + second, source) == symbols_of_nodes::<V>(first, source)
            + symbols_of_nodes::<V>(second, source),
    decreases second.len(),
{
    if second.len() == 0 {
        assert(first + second == first);
    } else {
        symbols_of_nodes_add::<V>(first, second.drop_last(), source);
        assert((first + second).drop_last() == first + second.drop_last());
        assert((first + second).last() == second.last());
    }
}

/// A walk gives the symbols in document order: they are the symbols of the
/// tree's nodes, each node before the nodes below it and before the nodes to
/// its right.
pub proof fn walk_is_in_document_order<V: LanguageRules>(node: NodeView, source: Seq<u8>)
    ensures
        walk::<V>(node, source) == symbols_of_nodes::<V>(node.nodes(), source),
    decreases node, 1nat,
{
    walk_each_is_in_document_order::<V>(node.children, source);
    symbols_of_nodes_add::<V>(seq![node], NodeView::nodes_each(node.children), source);
    assert(seq![node].drop_last() == Seq::<NodeView>::empty());
    assert(symbols_of_nodes::<V>(seq![node], source) == own_symbol::<V>(node, source)) by {
        assert(symbols_of_nodes::<V>(Seq::<NodeView>::empty(), source) == Seq::<
            SymbolView,
        >::empty());
        assert(seq![node].last() == node);
    }
}

/// The walks over a list of trees give the symbols of the trees' nodes in
/// document order.
pub proof fn walk_each_is_in_document_order<V: LanguageRules>(trees: Seq<NodeView>, source: Seq<u8>)
    ensures
        walk_each::<V>(trees, source) == symbols_of_nodes::<V>(
            NodeView::nodes_each(trees),
            source,
        ),
    decreases trees, 0nat,
{
    if trees.len() > 0 {
        walk_each_is_in_document_order::<V>(trees.drop_last(), source);
        walk_is_in_document_order::<V>(trees.last(), source);
        symbols_of_nodes_add::<V>(
            NodeView::nodes_each(trees.drop_last()),
            trees.last().nodes(),
            source,
        );
    }
}

/// Whether the symbol at place `at` of `symbols` is the one that the rules of
/// `V` give for the node at place `from` of `nodes`.
pub open spec fn comes_from<V: LanguageRules>(
    symbols: Seq<SymbolView>,
    at: int,
    nodes: Seq<NodeView>,
    from: int,
    source: Seq<u8>,
) -> bool {
    &&& 0 <= from < nodes.len()
    &&& V::symbol_for(nodes[from], source) == Some(symbols[at])
}

/// Each of the symbols of a list of nodes is the symbol of one of the nodes.
pub proof fn symbol_of_nodes_has_node<V: LanguageRules>(
    nodes: Seq<NodeView>,
    source: Seq<u8>,
    at: int,
)
    requires
        0 <= at < symbols_of_nodes::<V>(nodes, source).len(),
    ensures
        exists|from: int|
            #[trigger] comes_from::<V>(symbols_of_nodes::<V>(nodes, source), at, nodes, from, source),
    decreases nodes.len(),
{
    let all = symbols_of_nodes::<V>(nodes, source);
    let earlier = symbols_of_nodes::<V>(nodes.drop_last(), source);
    if at < earlier.len() {
        symbol_of_nodes_has_node::<V>(nodes.drop_last(), source, at);
        let from = choose|from: int|
            #[trigger] comes_from::<V>(earlier, at, nodes.drop_last(), from, source);
        assert(nodes.drop_last()[from] == nodes[from]);
        assert(all[at] == earlier[at]);
        assert(comes_from::<V>(all, at, nodes, from, source));
    } else {
        assert(all[at] == own_symbol::<V>(nodes.last(), source)[at - earlier.len()]);
        assert(comes_from::<V>(all, at, nodes, nodes.len() - 1, source));
    }
}

/// Each symbol of a walk is the symbol of one of the tree's nodes, and so has
/// the lines of that node, counted from 1, and its bytes.
pub proof fn walk_symbol_has_node<V: LanguageRules>(root: NodeView, source: Seq<u8>, at: int)
    requires
        0 <= at < walk::<V>(root, source).len(),
    ensures
        exists|from: int|
            {
                &&& #[trigger] comes_from::<V>(
                    walk::<V>(root, source),
                    at,
                    root.nodes(),
                    from,
                    source,
                )
                &&& walk::<V>(root, source)[at].start_line == root.nodes()[from].start_row + 1
                &&& walk::<V>(root, source)[at].end_line == root.nodes()[from].end_row + 1
                &&& walk::<V>(root, source)[at].full_range == root.nodes()[from].span()
            },
{
    walk_is_in_document_order::<V>(root, source);
    symbol_of_nodes_has_node::<V>(root.nodes(), source, at);
    let from = choose|from: int|
        #[trigger] comes_from::<V>(walk::<V>(root, source), at, root.nodes(), from, source);
    V::symbol_covers_node(root.nodes()[from], source);
}

/// Whether `part` stands in `whole` as one unbroken run that starts at `start`.
pub open spec fn is_run_at(part: Seq<SymbolView>, whole: Seq<SymbolView>, start: int) -> bool {
    &&& 0 <= start
    &&& start + part.len() <= whole.len()
    &&& whole.subrange(start, start + part.len()) == part
}

/// A run within a run of a list is a run of the list.
pub proof fn run_within_run(
    part: Seq<SymbolView>,
    middle: Seq<SymbolView>,
    whole: Seq<SymbolView>,
    in_middle: int,
    in_whole: int,
)
    requires
        is_run_at(part, middle, in_middle),
        is_run_at(middle, whole, in_whole),
    ensures
        is_run_at(part, whole, in_whole + in_middle),
{
    let start = in_whole + in_middle;
    let taken = whole.subrange(start, start + part.len());
    assert(taken.len() == part.len());
    assert forall|i: int| 0 <= i < part.len() implies #[trigger] taken[i] == part[i] by {
        assert(part[i] == middle.subrange(in_middle, in_middle + part.len())[i]);
        assert(middle[in_middle + i] == whole.subrange(in_whole, in_whole + middle.len())[in_middle
            + i]);
    }
    assert(taken =~= part);
}

/// A run of a list is a run of the list with another list put before it.
pub proof fn run_after_prefix(
    part: Seq<SymbolView>,
    prefix: Seq<SymbolView>,
    rest: Seq<SymbolView>,
    start: int,
)
    requires
        is_run_at(part, rest, start),
    ensures
        is_run_at(part, prefix + rest, prefix.len() + start),
{
    let whole = prefix + rest;
    let taken = whole.subrange(prefix.len() + start, prefix.len() + start + part.len());
    assert forall|i: int| 0 <= i < part.len() implies #[trigger] taken[i] == part[i] by {
        assert(part[i] == rest.subrange(start, start + part.len())[i]);
    }
    assert(taken =~= part);
}

/// The walk over a child stands as one run in the walks over all children.
pub proof fn child_walk_is_run<V: LanguageRules>(trees: Seq<NodeView>, k: int, source: Seq<u8>)
    requires
        0 <= k < trees.len(),
    ensures
        exists|start: int|
            #[trigger] is_run_at(walk::<V>(trees[k], source), walk_each::<V>(trees, source), start),
    decreases trees.len(),
{
    let whole = walk_each::<V>(trees, source);
    let shorter = walk_each::<V>(trees.drop_last(), source);
    let last = walk::<V>(trees.last(), source);
    assert(whole == shorter + last);
    if k == trees.len() - 1 {
        assert(whole.subrange(shorter.len() as int, (shorter.len() + last.len()) as int) == last);
        assert(is_run_at(walk::<V>(trees[k], source), whole, shorter.len() as int));
    } else {
        child_walk_is_run::<V>(trees.drop_last(), k, source);
        let part = walk::<V>(trees.drop_last()[k], source);
        let start = choose|start: int| #[trigger] is_run_at(part, shorter, start);
        assert(whole.subrange(start, start + part.len()) == shorter.subrange(
            start,
            start + part.len(),
        ));
        assert(is_run_at(walk::<V>(trees[k], source), whole, start));
    }
}

/// The walk over any node of a tree stands as one unbroken run in the walk
/// over the tree. Where the node is not the root, the run starts after the
/// root's own symbol.
pub proof fn nested_walk_is_run<V: LanguageRules>(root: NodeView, path: Seq<int>, source: Seq<u8>)
    requires
        root.at_path(path) is Some,
    ensures
        exists|start: int|
            {
                &&& #[trigger] is_run_at(
                    walk::<V>(root.at_path(path).unwrap(), source),
                    walk::<V>(root, source),
                    start,
                )
                &&& path.len() > 0 ==> start >= own_symbol::<V>(root, source).len()
            },
    decreases path.len(),
{
    let whole = walk::<V>(root, source);
    if path.len() == 0 {
        assert(whole.subrange(0, whole.len() as int) == whole);
        assert(is_run_at(walk::<V>(root.at_path(path).unwrap(), source), whole, 0));
    } else {
        let k = path.first();
        let child = root.children[k];
        let inner = child.at_path(path.drop_first()).unwrap();
        let own = own_symbol::<V>(root, source);
        let below = walk_each::<V>(root.children, source);
        nested_walk_is_run::<V>(child, path.drop_first(), source);
        let in_child = choose|start: int|
            #[trigger] is_run_at(walk::<V>(inner, source), walk::<V>(child, source), start);
        child_walk_is_run::<V>(root.children, k, source);
        let in_children = choose|start: int|
            #[trigger] is_run_at(walk::<V>(child, source), below, start);
        let part = walk::<V>(inner, source);
        let start = own.len() + in_children + in_child;
        assert(whole == own + below);
        run_within_run(part, walk::<V>(child, source), below, in_child, in_children);
        run_after_prefix(part, own, below, in_children + in_child);
        assert(is_run_at(part, whole, start as int));
    }
}

/// A symbol for an enclosing construct stands before the symbols for the
/// constructs nested in it, however deep, and none of these is left out: in
/// the walk over a tree, the symbol for any node is found, and where the root
/// has a symbol, that symbol is the first and the other stands after it.
pub proof fn nested_symbol_is_found<V: LanguageRules>(
    root: NodeView,
    path: Seq<int>,
    source: Seq<u8>,
)
    requires
        root.at_path(path) is Some,
        V::symbol_for(root.at_path(path).unwrap(), source) is Some,
    ensures
        exists|at: int|
            {
                &&& 0 <= at < walk::<V>(root, source).len()
                &&& #[trigger] walk::<V>(root, source)[at] == V::symbol_for(
                    root.at_path(path).unwrap(),
                    source,
                ).unwrap()
                &&& path.len() > 0 && V::symbol_for(root, source) is Some ==> at > 0
            },
        V::symbol_for(root, source) matches Some(symbol) ==> walk::<V>(root, source)[0] == symbol,
{
    let inner = root.at_path(path).unwrap();
    let whole = walk::<V>(root, source);
    let part = walk::<V>(inner, source);
    nested_walk_is_run::<V>(root, path, source);
    let start = choose|start: int|
        {
            &&& #[trigger] is_run_at(part, whole, start)
            &&& path.len() > 0 ==> start >= own_symbol::<V>(root, source).len()
        };
    assert(part[0] == V::symbol_for(inner, source).unwrap());
    assert(whole.subrange(start, start + part.len())[0] == whole[start]);
    assert(whole[start] == V::symbol_for(inner, source).unwrap());
}

} // verus!
