use crate::ast::order::symbols_of_nodes;
use crate::ast::order::walk_is_in_document_order;
use crate::ast::symbol::SymbolView;
use crate::ast::syntax::{NodeView, SyntaxNode};
use crate::ast::visitor::{own_symbol, walk, LanguageRules};
use vstd::prelude::*;
use vstd::string::StringSliceAdditionalSpecFns;

verus! {

/// The number of line breaks among the first `upto` bytes of `source`.
pub open spec fn line_breaks(source: Seq<u8>, upto: nat) -> nat
    decreases upto,
{
    if upto == 0 {
        0
    } else if upto <= source.len() && source[upto - 1] == 10u8 {
        line_breaks(source, (upto - 1) as nat) + 1
    } else {
        line_breaks(source, (upto - 1) as nat)
    }
}

impl NodeView {
    /// Whether the tree is laid out as the text of a file is: no node ends
    /// before it starts, each node covers its children, and each child ends
    /// where the next one starts or before.
    pub open spec fn spans_nest(self) -> bool
        decreases self,
    {
        &&& self.start_byte <= self.end_byte
        &&& forall|i: int|
            0 <= i < self.children.len() ==> {
                &&& self.start_byte <= (#[trigger] self.children[i]).start_byte
                &&& self.children[i].end_byte <= self.end_byte
                &&& self.children[i].spans_nest()
            }
        &&& forall|i: int|
            0 < i < self.children.len() ==> self.children[i - 1].end_byte <= (
            #[trigger] self.children[i]).start_byte
    }

    /// Whether the rows of the node itself count the line breaks of `source`
    /// before its first byte and before its end.
    pub open spec fn rows_match(self, source: Seq<u8>) -> bool {
        &&& self.start_row == line_breaks(source, self.start_byte)
        &&& self.end_row == line_breaks(source, self.end_byte)
    }

    /// Whether the rows of every node of the tree count the line breaks of
    /// `source` before it.
    pub open spec fn rows_count_breaks(self, source: Seq<u8>) -> bool
        decreases self,
    {
        &&& self.rows_match(source)
        &&& forall|i: int|
            0 <= i < self.children.len() ==> (#[trigger] self.children[i]).rows_count_breaks(
                source,
            )
    }
}

/// Whether two nodes stand as an earlier and a later node of a text do: the
/// later one starts no earlier, and it either ends within the earlier one or
/// starts where that one ends or after.
pub open spec fn in_order(earlier: NodeView, later: NodeView) -> bool {
    &&& earlier.start_byte <= later.start_byte
    &&& later.end_byte <= earlier.end_byte || earlier.end_byte <= later.start_byte
}

/// Whether each two of `nodes` are in order.
pub open spec fn laid_out(nodes: Seq<NodeView>) -> bool {
    forall|i: int, j: int|
        0 <= i < j < nodes.len() ==> in_order(#[trigger] nodes[i], #[trigger] nodes[j])
}

/// Whether each of `nodes` starts at `low` or after, ends at `high` or before,
/// and does not end before it starts.
pub open spec fn all_within(nodes: Seq<NodeView>, low: nat, high: nat) -> bool {
    forall|k: int|
        0 <= k < nodes.len() ==> low <= (#[trigger] nodes[k]).start_byte <= nodes[k].end_byte
            <= high
}

/// Whether `trees` can stand side by side below a node from `low` to `high`.
pub open spec fn side_by_side(trees: Seq<NodeView>, low: nat, high: nat) -> bool {
    &&& forall|k: int|
        0 <= k < trees.len() ==> {
            &&& low <= (#[trigger] trees[k]).start_byte
            &&& trees[k].end_byte <= high
            &&& trees[k].spans_nest()
        }
    &&& forall|k: int|
        0 < k < trees.len() ==> trees[k - 1].end_byte <= (#[trigger] trees[k]).start_byte
}

/// More line breaks stand before a later place than before an earlier one.
pub proof fn line_breaks_rise(source: Seq<u8>, earlier: nat, later: nat)
    requires
        earlier <= later,
    ensures
        line_breaks(source, earlier) <= line_breaks(source, later),
    decreases later,
{
    if earlier < later {
        line_breaks_rise(source, earlier, (later - 1) as nat);
    }
}

/// No line breaks stand beyond the end of the text.
pub proof fn line_breaks_end(source: Seq<u8>, upto: nat)
    requires
        source.len() <= upto,
    ensures
        line_breaks(source, upto) == line_breaks(source, source.len()),
    decreases upto,
{
    if source.len() < upto {
        line_breaks_end(source, (upto - 1) as nat);
    }
}

/// The number of line breaks among the first `upto` bytes of `source`.
pub fn count_line_breaks(source: &str, upto: usize) -> (count: usize)
    ensures
        count == line_breaks(source.spec_bytes(), upto as nat),
{
    let bytes = source.as_bytes();
    let end = if upto < bytes.len() {
        upto
    } else {
        bytes.len()
    };
    let mut count: usize = 0;
    let mut i: usize = 0;
    while i < end
        invariant
            i <= end <= bytes.len(),
            count <= i,
            count == line_breaks(bytes@, i as nat),
        decreases end - i,
    {
        if bytes[i] == 10u8 {
            count = count + 1;
        }
        i = i + 1;
    }
    proof {
        if bytes.len() <= upto {
            line_breaks_end(bytes@, upto as nat);
        }
    }
    count
}

/// Whether the child at place `at` of `node` stands as the text asks: within
/// `node`, after the child before it, and with a tree that follows the text.
pub open spec fn child_follows(node: NodeView, at: int, source: Seq<u8>) -> bool {
    &&& node.start_byte <= node.children[at].start_byte
    &&& node.children[at].end_byte <= node.end_byte
    &&& at > 0 ==> node.children[at - 1].end_byte <= node.children[at].start_byte
    &&& node.children[at].spans_nest()
    &&& node.children[at].rows_count_breaks(source)
}

/// A tree follows the text exactly when its root does and each child stands
/// as the text asks.
pub proof fn follows_by_children(node: NodeView, source: Seq<u8>)
    ensures
        (node.spans_nest() && node.rows_count_breaks(source)) <==> {
            &&& node.start_byte <= node.end_byte
            &&& node.rows_match(source)
            &&& forall|k: int| 0 <= k < node.children.len() ==> child_follows(node, k, source)
        },
{
    if node.spans_nest() && node.rows_count_breaks(source) {
        assert forall|k: int| 0 <= k < node.children.len() implies child_follows(
            node,
            k,
            source,
        ) by {
            assert(node.children[k].spans_nest());
            assert(node.children[k].rows_count_breaks(source));
        }
    }
    if node.start_byte <= node.end_byte && node.rows_match(source) && forall|k: int|
        0 <= k < node.children.len() ==> child_follows(node, k, source) {
        assert forall|i: int| 0 <= i < node.children.len() implies {
            &&& node.start_byte <= (#[trigger] node.children[i]).start_byte
            &&& node.children[i].end_byte <= node.end_byte
            &&& node.children[i].spans_nest()
        } by {
            assert(child_follows(node, i, source));
        }
        assert forall|i: int| 0 < i < node.children.len() implies node.children[i - 1].end_byte
            <= (#[trigger] node.children[i]).start_byte by {
            assert(child_follows(node, i, source));
        }
        assert forall|i: int| 0 <= i < node.children.len() implies (
        #[trigger] node.children[i]).rows_count_breaks(source) by {
            assert(child_follows(node, i, source));
        }
    }
}

impl SyntaxNode {
    /// Whether the tree is laid out as `source` is: its spans nest, and the rows
    /// of its nodes count the line breaks of `source` before them.
    pub fn follows_text(&self, source: &str) -> (follows: bool)
        ensures
            follows == (self@.spans_nest() && self@.rows_count_breaks(source.spec_bytes())),
        decreases self,
    {
        let ghost bytes = source.spec_bytes();
        proof {
            self.view_children();
            follows_by_children(self@, bytes);
        }
        if self.start_byte > self.end_byte {
            return false;
        }
        if self.start_row != count_line_breaks(source, self.start_byte) || self.end_row
            != count_line_breaks(source, self.end_byte) {
            return false;
        }
        let mut i: usize = 0;
        while i < self.children.len()
            invariant
                i <= self.children.len(),
                bytes == source.spec_bytes(),
                self@.children.len() == self.children.len(),
                forall|k: int|
                    0 <= k < self.children.len() ==> self@.children[k] == self.children[k]@,
                forall|k: int| 0 <= k < i ==> child_follows(self@, k, bytes),
                (forall|k: int| 0 <= k < self.children.len() ==> child_follows(self@, k, bytes))
                    ==> (self@.spans_nest() && self@.rows_count_breaks(bytes)),
                (self@.spans_nest() && self@.rows_count_breaks(bytes)) ==> (forall|k: int|
                    0 <= k < self.children.len() ==> child_follows(self@, k, bytes)),
            decreases self.children.len() - i,
        {
            let child = &self.children[i];
            let within = self.start_byte <= child.start_byte && child.end_byte <= self.end_byte;
            let after = i == 0 || self.children[i - 1].end_byte <= child.start_byte;
            let good = within && after && child.follows_text(source);
            proof {
                assert(good == child_follows(self@, i as int, bytes));
            }
            if !good {
                return false;
            }
            i = i + 1;
        }
        true
    }
}

/// Two lists of nodes that are laid out, the second of which stands wholly
/// after the first, are laid out when joined.
proof fn joined_is_laid_out(first: Seq<NodeView>, second: Seq<NodeView>, low: nat, cut: nat, high: nat)
    requires
        low <= cut <= high,
        laid_out(first),
        laid_out(second),
        all_within(first, low, cut),
        all_within(second, cut, high),
    ensures
        laid_out(first + second),
        all_within(first + second, low, high),
{
    let all = first + second;
    assert forall|i: int, j: int| 0 <= i < j < all.len() implies in_order(
        #[trigger] all[i],
        #[trigger] all[j],
    ) by {
        if j < first.len() {
            assert(all[i] == first[i] && all[j] == first[j]);
        } else if i >= first.len() {
            assert(all[i] == second[i - first.len()] && all[j] == second[j - first.len()]);
        } else {
            assert(all[i] == first[i] && all[j] == second[j - first.len()]);
        }
    }
    assert forall|k: int| 0 <= k < all.len() implies low <= (#[trigger] all[k]).start_byte
        <= all[k].end_byte <= high by {
        if k < first.len() {
            assert(all[k] == first[k]);
        } else {
            assert(all[k] == second[k - first.len()]);
        }
    }
}

/// A node before nodes that it covers and that are laid out is laid out with them.
proof fn covered_is_laid_out(node: NodeView, below: Seq<NodeView>)
    requires
        node.start_byte <= node.end_byte,
        laid_out(below),
        all_within(below, node.start_byte, node.end_byte),
    ensures
        laid_out(seq![node] + below),
        all_within(seq![node] + below, node.start_byte, node.end_byte),
{
    let all = seq![node] + below;
    assert forall|i: int, j: int| 0 <= i < j < all.len() implies in_order(
        #[trigger] all[i],
        #[trigger] all[j],
    ) by {
        assert(all[j] == below[j - 1]);
        if i == 0 {
            assert(all[i] == node);
        } else {
            assert(all[i] == below[i - 1]);
        }
    }
    assert forall|k: int| 0 <= k < all.len() implies node.start_byte <= (
    #[trigger] all[k]).start_byte <= all[k].end_byte <= node.end_byte by {
        if k == 0 {
            assert(all[k] == node);
        } else {
            assert(all[k] == below[k - 1]);
        }
    }
}

/// Whether none of `trees` ends before it starts and each starts where the
/// one before it ends or after.
pub open spec fn in_a_row(trees: Seq<NodeView>) -> bool {
    &&& forall|k: int| 0 <= k < trees.len() ==> (#[trigger] trees[k]).start_byte <= trees[k].end_byte
    &&& forall|k: int|
        0 < k < trees.len() ==> trees[k - 1].end_byte <= (#[trigger] trees[k]).start_byte
}

/// Each of trees in a row but the last ends where the last one starts or before.
proof fn ends_before_last(trees: Seq<NodeView>, at: int)
    requires
        in_a_row(trees),
        0 <= at < trees.len() - 1,
    ensures
        trees[at].end_byte <= trees[trees.len() - 1].start_byte,
    decreases trees.len() - at,
{
    assert(trees[at].end_byte <= trees[at + 1].start_byte);
    if at + 1 < trees.len() - 1 {
        ends_before_last(trees, at + 1);
        assert(trees[at + 1].start_byte <= trees[at + 1].end_byte);
    }
}

/// Trees that stand side by side are in a row.
proof fn side_by_side_in_a_row(trees: Seq<NodeView>, low: nat, high: nat)
    requires
        side_by_side(trees, low, high),
    ensures
        in_a_row(trees),
{
    assert forall|k: int| 0 <= k < trees.len() implies (#[trigger] trees[k]).start_byte
        <= trees[k].end_byte by {
        assert(trees[k].spans_nest());
    }
}

/// All but the last of trees that stand side by side stand side by side up
/// to where the last one starts.
proof fn earlier_side_by_side(trees: Seq<NodeView>, low: nat, high: nat)
    requires
        trees.len() > 0,
        side_by_side(trees, low, high),
    ensures
        trees.last().spans_nest(),
        low <= trees.last().start_byte <= trees.last().end_byte <= high,
        side_by_side(trees.drop_last(), low, trees.last().start_byte),
{
    let earlier = trees.drop_last();
    let cut = trees.last().start_byte;
    side_by_side_in_a_row(trees, low, high);
    assert(trees.last() == trees[trees.len() - 1]);
    assert(trees.last().spans_nest());
    assert forall|k: int| 0 <= k < earlier.len() implies {
        &&& low <= (#[trigger] earlier[k]).start_byte
        &&& earlier[k].end_byte <= cut
        &&& earlier[k].spans_nest()
    } by {
        assert(earlier[k] == trees[k]);
        ends_before_last(trees, k);
    }
    assert forall|k: int| 0 < k < earlier.len() implies earlier[k - 1].end_byte <= (
    #[trigger] earlier[k]).start_byte by {
        assert(earlier[k] == trees[k]);
        assert(earlier[k - 1] == trees[k - 1]);
    }
}

/// The nodes of a tree whose spans nest are laid out, within the tree's span.
pub proof fn nodes_are_laid_out(tree: NodeView)
    requires
        tree.spans_nest(),
    ensures
        laid_out(tree.nodes()),
        all_within(tree.nodes(), tree.start_byte, tree.end_byte),
    decreases tree, 1nat,
{
    nodes_each_are_laid_out(tree.children, tree.start_byte, tree.end_byte);
    covered_is_laid_out(tree, NodeView::nodes_each(tree.children));
}

/// The nodes of trees that stand side by side are laid out.
pub proof fn nodes_each_are_laid_out(trees: Seq<NodeView>, low: nat, high: nat)
    requires
        low <= high,
        side_by_side(trees, low, high),
    ensures
        laid_out(NodeView::nodes_each(trees)),
        all_within(NodeView::nodes_each(trees), low, high),
    decreases trees, 0nat,
{
    if trees.len() > 0 {
        earlier_side_by_side(trees, low, high);
        let cut = trees.last().start_byte;
        nodes_each_are_laid_out(trees.drop_last(), low, cut);
        nodes_are_laid_out(trees.last());
        assert(all_within(trees.last().nodes(), cut, high)) by {
            assert forall|k: int| 0 <= k < trees.last().nodes().len() implies cut <= (
            #[trigger] trees.last().nodes()[k]).start_byte <= trees.last().nodes()[k].end_byte
                <= high by {}
        }
        joined_is_laid_out(
            NodeView::nodes_each(trees.drop_last()),
            trees.last().nodes(),
            low,
            cut,
            high,
        );
    }
}

/// The rows of every node of a tree whose rows count the line breaks do so.
pub proof fn nodes_rows_match(tree: NodeView, source: Seq<u8>)
    requires
        tree.rows_count_breaks(source),
    ensures
        forall|k: int|
            0 <= k < tree.nodes().len() ==> (#[trigger] tree.nodes()[k]).rows_match(source),
    decreases tree, 1nat,
{
    let below = NodeView::nodes_each(tree.children);
    nodes_each_rows_match(tree.children, source);
    assert forall|k: int| 0 <= k < tree.nodes().len() implies (#[trigger] tree.nodes()[k]).rows_match(
        source,
    ) by {
        if k > 0 {
            assert(tree.nodes()[k] == below[k - 1]);
        }
    }
}

/// The rows of every node of trees whose rows count the line breaks do so.
pub proof fn nodes_each_rows_match(trees: Seq<NodeView>, source: Seq<u8>)
    requires
        forall|i: int| 0 <= i < trees.len() ==> (#[trigger] trees[i]).rows_count_breaks(source),
    ensures
        forall|k: int|
            0 <= k < NodeView::nodes_each(trees).len() ==> (#[trigger] NodeView::nodes_each(
                trees,
            )[k]).rows_match(source),
    decreases trees, 0nat,
{
    if trees.len() > 0 {
        let earlier = NodeView::nodes_each(trees.drop_last());
        let last = trees.last().nodes();
        let all = NodeView::nodes_each(trees);
        assert forall|i: int| 0 <= i < trees.drop_last().len() implies (
        #[trigger] trees.drop_last()[i]).rows_count_breaks(source) by {
            assert(trees.drop_last()[i] == trees[i]);
        }
        nodes_each_rows_match(trees.drop_last(), source);
        nodes_rows_match(trees.last(), source);
        assert forall|k: int| 0 <= k < all.len() implies (#[trigger] all[k]).rows_match(source) by {
            if k < earlier.len() {
                assert(all[k] == earlier[k]);
            } else {
                assert(all[k] == last[k - earlier.len()]);
            }
        }
    }
}

/// The place in `nodes` of the node that gives the symbol at place `at` of
/// the symbols of `nodes`.
pub open spec fn node_place<V: LanguageRules>(nodes: Seq<NodeView>, source: Seq<u8>, at: int) -> int
    decreases nodes.len(),
{
    if nodes.len() == 0 {
        -1
    } else if at < symbols_of_nodes::<V>(nodes.drop_last(), source).len() {
        node_place::<V>(nodes.drop_last(), source, at)
    } else {
        nodes.len() - 1
    }
}

/// The node at `node_place` gives the symbol, and later symbols come from
/// later nodes.
pub proof fn node_place_rises<V: LanguageRules>(
    nodes: Seq<NodeView>,
    source: Seq<u8>,
    at: int,
    later: int,
)
    requires
        0 <= at <= later < symbols_of_nodes::<V>(nodes, source).len(),
    ensures
        0 <= node_place::<V>(nodes, source, at) < nodes.len(),
        V::symbol_for(nodes[node_place::<V>(nodes, source, at)], source) == Some(
            symbols_of_nodes::<V>(nodes, source)[at],
        ),
        at < later ==> node_place::<V>(nodes, source, at) < node_place::<V>(nodes, source, later),
        at == later ==> node_place::<V>(nodes, source, at) == node_place::<V>(nodes, source, later),
    decreases nodes.len(),
{
    let all = symbols_of_nodes::<V>(nodes, source);
    let earlier = symbols_of_nodes::<V>(nodes.drop_last(), source);
    let own = own_symbol::<V>(nodes.last(), source);
    assert(all == earlier + own);
    if later < earlier.len() {
        node_place_rises::<V>(nodes.drop_last(), source, at, later);
        let place = node_place::<V>(nodes.drop_last(), source, at);
        assert(nodes.drop_last()[place] == nodes[place]);
        assert(all[at] == earlier[at]);
    } else if at < earlier.len() {
        node_place_rises::<V>(nodes.drop_last(), source, at, at);
        let place = node_place::<V>(nodes.drop_last(), source, at);
        assert(nodes.drop_last()[place] == nodes[place]);
        assert(all[at] == earlier[at]);
    } else {
        assert(all[at] == own[at - earlier.len()]);
    }
}

/// The symbols of a walk over a tree whose spans nest follow the text: of two
/// symbols the later one starts no earlier, and it either ends within the
/// earlier one or starts where that one ends or after.
pub proof fn symbols_follow_offsets<V: LanguageRules>(
    root: NodeView,
    source: Seq<u8>,
    earlier: int,
    later: int,
)
    requires
        root.spans_nest(),
        0 <= earlier < later < walk::<V>(root, source).len(),
    ensures
        walk::<V>(root, source)[earlier].full_range.start <= walk::<V>(
            root,
            source,
        )[later].full_range.start,
        walk::<V>(root, source)[later].full_range.end <= walk::<V>(
            root,
            source,
        )[earlier].full_range.end || walk::<V>(root, source)[earlier].full_range.end <= walk::<V>(
            root,
            source,
        )[later].full_range.start,
{
    let nodes = root.nodes();
    walk_is_in_document_order::<V>(root, source);
    nodes_are_laid_out(root);
    node_place_rises::<V>(nodes, source, earlier, later);
    node_place_rises::<V>(nodes, source, later, later);
    let first = node_place::<V>(nodes, source, earlier);
    let second = node_place::<V>(nodes, source, later);
    V::symbol_covers_node(nodes[first], source);
    V::symbol_covers_node(nodes[second], source);
    assert(in_order(nodes[first], nodes[second]));
}

/// In a walk over a tree whose spans nest, the symbol of an enclosing
/// construct stands before the symbols of the constructs in it: a symbol whose
/// bytes lie within those of another one, without being the same bytes and
/// without being none at all, stands after that one.
pub proof fn enclosing_symbol_is_earlier<V: LanguageRules>(
    root: NodeView,
    source: Seq<u8>,
    outer: int,
    inner: int,
)
    requires
        root.spans_nest(),
        0 <= outer < walk::<V>(root, source).len(),
        0 <= inner < walk::<V>(root, source).len(),
        walk::<V>(root, source)[outer].full_range.start <= walk::<V>(
            root,
            source,
        )[inner].full_range.start,
        walk::<V>(root, source)[inner].full_range.end <= walk::<V>(
            root,
            source,
        )[outer].full_range.end,
        walk::<V>(root, source)[inner].full_range != walk::<V>(root, source)[outer].full_range,
        walk::<V>(root, source)[inner].full_range.start < walk::<V>(
            root,
            source,
        )[inner].full_range.end,
    ensures
        outer < inner,
{
    if inner < outer {
        symbols_follow_offsets::<V>(root, source, inner, outer);
    }
}

/// The lines of a symbol count the line breaks of the text: in a walk over a
/// tree whose spans nest and whose rows count the line breaks of `source`,
/// each symbol starts on the line after the line breaks before its first byte
/// and ends on the line after the line breaks before its end, and it does not
/// end on a line before the one on which it starts.
pub proof fn symbol_lines_count_breaks<V: LanguageRules>(
    root: NodeView,
    source: Seq<u8>,
    at: int,
)
    requires
        root.spans_nest(),
        root.rows_count_breaks(source),
        0 <= at < walk::<V>(root, source).len(),
    ensures
        walk::<V>(root, source)[at].start_line == 1 + line_breaks(
            source,
            walk::<V>(root, source)[at].full_range.start,
        ),
        walk::<V>(root, source)[at].end_line == 1 + line_breaks(
            source,
            walk::<V>(root, source)[at].full_range.end,
        ),
        1 <= walk::<V>(root, source)[at].start_line <= walk::<V>(root, source)[at].end_line,
{
    let nodes = root.nodes();
    walk_is_in_document_order::<V>(root, source);
    nodes_are_laid_out(root);
    nodes_rows_match(root, source);
    node_place_rises::<V>(nodes, source, at, at);
    let place = node_place::<V>(nodes, source, at);
    V::symbol_covers_node(nodes[place], source);
    assert(nodes[place].rows_match(source));
    line_breaks_rise(source, nodes[place].start_byte, nodes[place].end_byte);
}

} // verus!
