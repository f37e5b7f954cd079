use crate::ast::syntax::{trees_of, trees_of_each, SyntaxNode, NodeView};
use crate::text::optional_text;
use vstd::prelude::*;

verus! {

/// What a `NodeRecord` stands for.
pub struct RecordView {
    pub depth: nat,
    pub kind: Seq<char>,
    pub field: Option<Seq<char>>,
    pub start_row: nat,
    pub end_row: nat,
    pub start_byte: nat,
    pub end_byte: nat,
}

/// One node of a syntax tree without the nodes below it: what the node itself
/// holds, and how many levels below the root it stands.
#[derive(Debug)]
pub struct NodeRecord {
    pub depth: usize,
    pub kind: String,
    pub field: Option<String>,
    pub start_row: usize,
    pub end_row: usize,
    pub start_byte: usize,
    pub end_byte: usize,
}

impl View for NodeRecord {
    type V = RecordView;

    open spec fn view(&self) -> RecordView {
        RecordView {
            depth: self.depth as nat,
            kind: self.kind@,
            field: optional_text(self.field),
            start_row: self.start_row as nat,
            end_row: self.end_row as nat,
            start_byte: self.start_byte as nat,
            end_byte: self.end_byte as nat,
        }
    }
}

/// The views of a list of records, in the list's order.
pub open spec fn record_views(records: Seq<NodeRecord>) -> Seq<RecordView> {
    records.map_values(|r: NodeRecord| r@)
}

impl NodeView {
    /// The record of the node itself, `depth` levels below the root.
    pub open spec fn record(self, depth: nat) -> RecordView {
        RecordView {
            depth,
            kind: self.kind,
            field: self.field,
            start_row: self.start_row,
            end_row: self.end_row,
            start_byte: self.start_byte,
            end_byte: self.end_byte,
        }
    }

    /// The records of the tree's nodes in document order, where the tree's own
    /// node stands `depth` levels below the root: the node itself, then the
    /// listings of its children from left to right, one level further down.
    pub open spec fn listing(self, depth: nat) -> Seq<RecordView>
        decreases self,
    {
        seq![self.record(depth)] + Self::listing_each(self.children, depth + 1)
    }

    /// The listings of `trees` one after the other, each at `depth`.
    pub open spec fn listing_each(trees: Seq<NodeView>, depth: nat) -> Seq<RecordView>
        decreases trees,
    {
        if trees.len() == 0 {
            Seq::empty()
        } else {
            Self::listing_each(trees.drop_last(), depth) + trees.last().listing(depth)
        }
    }
}

/// Whether each record after the first stands at most one level below the
/// record before it and nowhere above level 1, and every record's line
/// numbers, counted from 1, can be held in a `usize`.
pub open spec fn well_nested(records: Seq<RecordView>) -> bool {
    &&& forall|i: int|
        0 < i < records.len() ==> 1 <= (#[trigger] records[i]).depth <= records[i - 1].depth + 1
    &&& forall|i: int|
        0 <= i < records.len() ==> (#[trigger] records[i]).start_row < usize::MAX
            && records[i].end_row < usize::MAX
}

/// Whether `records` can be the listing of a tree from its root: there is a
/// first record, it stands at level 0, and the records are well nested.
pub open spec fn is_listing(records: Seq<RecordView>) -> bool {
    &&& records.len() > 0
    &&& records[0].depth == 0
    &&& well_nested(records)
}

/// The listings of a list of trees that grew by one are the listings of the
/// shorter list followed by the listing of the new tree.
pub proof fn listing_each_push(trees: Seq<NodeView>, tree: NodeView, depth: nat)
    ensures
        NodeView::listing_each(trees.push(tree), depth) == NodeView::listing_each(trees, depth)
            + tree.listing(depth),
{
    let longer = trees.push(tree);
    assert(longer.drop_last() == trees);
    assert(longer.last() == tree);
}

/// Whether `records` can list trees that stand side by side at `depth`: the
/// first record stands at `depth`, none stands above it, each stands at most one
/// level below the record before it, and every record's line numbers fit.
pub open spec fn lists_from(records: Seq<RecordView>, depth: nat) -> bool {
    &&& records.len() > 0 ==> records[0].depth == depth
    &&& forall|i: int| 0 <= i < records.len() ==> (#[trigger] records[i]).depth >= depth
    &&& forall|i: int|
        0 < i < records.len() ==> (#[trigger] records[i]).depth <= records[i - 1].depth + 1
    &&& forall|i: int|
        0 <= i < records.len() ==> (#[trigger] records[i]).start_row < usize::MAX
            && records[i].end_row < usize::MAX
}

/// The listing of a tree whose line numbers fit starts with the tree's own
/// record, and all its other records stand below that one, each at most one
/// level below the record before it.
pub proof fn listing_nests(tree: NodeView, depth: nat)
    requires
        tree.lines_fit(),
    ensures
        tree.listing(depth).len() > 0,
        lists_from(tree.listing(depth), depth),
        forall|i: int|
            0 < i < tree.listing(depth).len() ==> (#[trigger] tree.listing(depth)[i]).depth > depth,
    decreases tree, 1nat,
{
    let below = NodeView::listing_each(tree.children, depth + 1);
    let all = tree.listing(depth);
    listing_each_nests(tree.children, depth + 1);
    assert(all == seq![tree.record(depth)] + below);
    assert(all[0] == tree.record(depth));
    assert forall|i: int| 0 < i < all.len() implies (#[trigger] all[i]).depth > depth && all[i].depth
        <= all[i - 1].depth + 1 && all[i].start_row < usize::MAX && all[i].end_row
        < usize::MAX by {
        assert(all[i] == below[i - 1]);
        if i > 1 {
            assert(all[i - 1] == below[i - 2]);
        }
    }
}

/// The listings of trees whose line numbers fit, taken one after the other,
/// can list trees that stand side by side.
pub proof fn listing_each_nests(trees: Seq<NodeView>, depth: nat)
    requires
        forall|i: int| 0 <= i < trees.len() ==> (#[trigger] trees[i]).lines_fit(),
    ensures
        lists_from(NodeView::listing_each(trees, depth), depth),
    decreases trees, 0nat,
{
    if trees.len() > 0 {
        let earlier = NodeView::listing_each(trees.drop_last(), depth);
        let last = trees.last().listing(depth);
        let all = NodeView::listing_each(trees, depth);
        assert forall|i: int| 0 <= i < trees.drop_last().len() implies (
        #[trigger] trees.drop_last()[i]).lines_fit() by {
            assert(trees.drop_last()[i] == trees[i]);
        }
        listing_each_nests(trees.drop_last(), depth);
        listing_nests(trees.last(), depth);
        assert(all == earlier + last);
        assert forall|i: int| 0 <= i < all.len() implies (#[trigger] all[i]).depth >= depth
            && all[i].start_row < usize::MAX && all[i].end_row < usize::MAX by {
            if i < earlier.len() {
                assert(all[i] == earlier[i]);
            } else {
                assert(all[i] == last[i - earlier.len()]);
            }
        }
        assert forall|i: int| 0 < i < all.len() implies (#[trigger] all[i]).depth <= all[i
            - 1].depth + 1 by {
            if i < earlier.len() {
                assert(all[i] == earlier[i]);
                assert(all[i - 1] == earlier[i - 1]);
            } else if i == earlier.len() {
                assert(all[i] == last[0]);
                assert(all[i - 1] == earlier[i - 1]);
            } else {
                assert(all[i] == last[i - earlier.len()]);
                assert(all[i - 1] == last[i - 1 - earlier.len()]);
            }
        }
        if earlier.len() > 0 {
            assert(all[0] == earlier[0]);
        } else {
            assert(all[0] == last[0]);
        }
    }
}

/// Every tree whose line numbers fit has a listing from which `from_listing`
/// builds a tree.
pub proof fn tree_has_listing(tree: NodeView)
    requires
        tree.lines_fit(),
    ensures
        is_listing(tree.listing(0)),
{
    listing_nests(tree, 0);
}

/// A listing is the listing of one tree only.
pub proof fn listing_names_one_tree(first: NodeView, second: NodeView, depth: nat)
    requires
        first.lines_fit(),
        second.lines_fit(),
        first.listing(depth) == second.listing(depth),
    ensures
        first == second,
    decreases first, 1nat,
{
    let below_first = NodeView::listing_each(first.children, depth + 1);
    let below_second = NodeView::listing_each(second.children, depth + 1);
    let all = first.listing(depth);
    assert(all == seq![first.record(depth)] + below_first);
    assert(all == seq![second.record(depth)] + below_second);
    assert(all[0] == first.record(depth));
    assert(all[0] == second.record(depth));
    assert(below_first == all.subrange(1, all.len() as int));
    assert(below_second == all.subrange(1, all.len() as int));
    listing_each_names_one_list(first.children, second.children, depth + 1);
}

/// A list of records ends in one listing of a tree at `depth` only: where it
/// is cut in two so that the second part starts with a record at `depth` and
/// goes on with records below `depth`, the cut is in one place.
proof fn split_is_unique(
    all: Seq<RecordView>,
    early_first: Seq<RecordView>,
    last_first: Seq<RecordView>,
    early_second: Seq<RecordView>,
    last_second: Seq<RecordView>,
    depth: nat,
)
    requires
        all == early_first + last_first,
        all == early_second + last_second,
        last_first.len() > 0,
        last_second.len() > 0,
        last_first[0].depth == depth,
        last_second[0].depth == depth,
        forall|i: int| 0 < i < last_first.len() ==> (#[trigger] last_first[i]).depth > depth,
        forall|i: int| 0 < i < last_second.len() ==> (#[trigger] last_second[i]).depth > depth,
    ensures
        early_first == early_second,
        last_first == last_second,
{
    assert(all.len() == early_first.len() + last_first.len());
    assert(all.len() == early_second.len() + last_second.len());
    if early_first.len() < early_second.len() {
        let at = early_second.len() as int;
        assert(all[at] == last_second[0]);
        assert(all[at] == last_first[at - early_first.len()]);
    }
    if early_second.len() < early_first.len() {
        let at = early_first.len() as int;
        assert(all[at] == last_first[0]);
        assert(all[at] == last_second[at - early_second.len()]);
    }
    assert(early_first == all.subrange(0, early_first.len() as int));
    assert(early_second == all.subrange(0, early_first.len() as int));
    assert(last_first == all.subrange(early_first.len() as int, all.len() as int));
    assert(last_second == all.subrange(early_first.len() as int, all.len() as int));
}

/// The listing of a tree at `depth` starts with a record at `depth` and goes
/// on with records below `depth`.
proof fn listing_starts(tree: NodeView, depth: nat)
    requires
        tree.lines_fit(),
    ensures
        tree.listing(depth).len() > 0,
        tree.listing(depth)[0].depth == depth,
        forall|i: int|
            0 < i < tree.listing(depth).len() ==> (#[trigger] tree.listing(depth)[i]).depth > depth,
{
    listing_nests(tree, depth);
}

/// All but the last of trees whose line numbers fit have line numbers that fit.
proof fn earlier_lines_fit(trees: Seq<NodeView>)
    requires
        trees.len() > 0,
        forall|i: int| 0 <= i < trees.len() ==> (#[trigger] trees[i]).lines_fit(),
    ensures
        trees.last().lines_fit(),
        forall|i: int|
            0 <= i < trees.drop_last().len() ==> (#[trigger] trees.drop_last()[i]).lines_fit(),
{
    assert forall|i: int| 0 <= i < trees.drop_last().len() implies (
    #[trigger] trees.drop_last()[i]).lines_fit() by {
        assert(trees.drop_last()[i] == trees[i]);
    }
}

/// Listings taken one after the other are those of one list of trees only.
pub proof fn listing_each_names_one_list(first: Seq<NodeView>, second: Seq<NodeView>, depth: nat)
    requires
        forall|i: int| 0 <= i < first.len() ==> (#[trigger] first[i]).lines_fit(),
        forall|i: int| 0 <= i < second.len() ==> (#[trigger] second[i]).lines_fit(),
        NodeView::listing_each(first, depth) == NodeView::listing_each(second, depth),
    ensures
        first == second,
    decreases first, 0nat,
{
    if first.len() == 0 {
        if second.len() > 0 {
            earlier_lines_fit(second);
            listing_starts(second.last(), depth);
        }
        assert(first =~= second);
    } else if second.len() == 0 {
        earlier_lines_fit(first);
        listing_starts(first.last(), depth);
    } else {
        earlier_lines_fit(first);
        earlier_lines_fit(second);
        listing_starts(first.last(), depth);
        listing_starts(second.last(), depth);
        split_is_unique(
            NodeView::listing_each(first, depth),
            NodeView::listing_each(first.drop_last(), depth),
            first.last().listing(depth),
            NodeView::listing_each(second.drop_last(), depth),
            second.last().listing(depth),
            depth,
        );
        listing_names_one_tree(first.last(), second.last(), depth);
        listing_each_names_one_list(first.drop_last(), second.drop_last(), depth);
        assert(first =~= first.drop_last().push(first.last()));
        assert(second =~= second.drop_last().push(second.last()));
    }
}

/// The tree that `records` list from its root.
pub open spec fn tree_of(records: Seq<RecordView>) -> NodeView {
    choose|tree: NodeView| tree.lines_fit() && tree.listing(0) == records
}

/// A tree whose line numbers fit is the tree of its listing.
pub proof fn tree_of_listing(tree: NodeView)
    requires
        tree.lines_fit(),
    ensures
        tree_of(tree.listing(0)) == tree,
{
    let found = tree_of(tree.listing(0));
    assert(found.lines_fit() && found.listing(0) == tree.listing(0));
    listing_names_one_tree(found, tree, 0);
}

/// A copy of an optional text.
fn copy_text(text: &Option<String>) -> (copy: Option<String>)
    ensures
        optional_text(copy) == optional_text(*text),
{
    match text {
        Some(t) => Some(t.clone()),
        None => None,
    }
}

/// Whether `records` can be the listing of a tree from its root.
pub fn can_be_listing(records: &Vec<NodeRecord>) -> (ok: bool)
    ensures
        ok == is_listing(record_views(records@)),
{
    let ghost views = record_views(records@);
    if records.len() == 0 {
        return false;
    }
    if records[0].depth != 0 {
        assert(views[0].depth != 0);
        return false;
    }
    if records[0].start_row == usize::MAX || records[0].end_row == usize::MAX {
        assert(!(views[0].start_row < usize::MAX && views[0].end_row < usize::MAX));
        return false;
    }
    let mut i: usize = 1;
    while i < records.len()
        invariant
            1 <= i <= records.len(),
            views == record_views(records@),
            forall|k: int| 0 < k < i ==> 1 <= (#[trigger] views[k]).depth <= views[k - 1].depth + 1,
            forall|k: int|
                0 <= k < i ==> (#[trigger] views[k]).start_row < usize::MAX && views[k].end_row
                    < usize::MAX,
        decreases records.len() - i,
    {
        let depth = records[i].depth;
        if depth == 0 || depth - 1 > records[i - 1].depth {
            assert(!(1 <= views[i as int].depth <= views[i - 1].depth + 1));
            return false;
        }
        if records[i].start_row == usize::MAX || records[i].end_row == usize::MAX {
            assert(!(views[i as int].start_row < usize::MAX && views[i as int].end_row
                < usize::MAX));
            return false;
        }
        i = i + 1;
    }
    true
}

/// A list of nodes that grew by one node lists the records that it listed
/// before, followed by those of the new node.
proof fn listing_grows(
    children: Seq<SyntaxNode>,
    child: SyntaxNode,
    depth: nat,
    views: Seq<RecordView>,
    first: int,
    next: int,
    after: int,
)
    requires
        0 <= first <= next <= after <= views.len(),
        NodeView::listing_each(trees_of(children), depth) == views.subrange(first, next),
        child@.listing(depth) == views.subrange(next, after),
    ensures
        NodeView::listing_each(trees_of(children.push(child)), depth) == views.subrange(
            first,
            after,
        ),
{
    assert(children.push(child).drop_last() == children);
    assert(trees_of(children.push(child)) == trees_of(children).push(child@));
    listing_each_push(trees_of(children), child@, depth);
    assert(views.subrange(first, next) + views.subrange(next, after) == views.subrange(
        first,
        after,
    ));
}

/// A node that holds what a record holds, above children that list the records
/// after it, lists that record and those after it.
proof fn listing_of_node(node: SyntaxNode, views: Seq<RecordView>, start: int, end: int)
    requires
        0 <= start < end <= views.len(),
        node@.record(views[start].depth) == views[start],
        NodeView::listing_each(trees_of(node.children@), views[start].depth + 1)
            == views.subrange(start + 1, end),
    ensures
        node@.listing(views[start].depth) == views.subrange(start, end),
{
    assert(seq![views[start]] + views.subrange(start + 1, end) == views.subrange(start, end));
}

/// A node whose own lines fit, above children whose lines fit, has lines that fit.
proof fn lines_fit_of_node(node: SyntaxNode)
    requires
        node.start_row < usize::MAX,
        node.end_row < usize::MAX,
        forall|k: int| 0 <= k < node.children.len() ==> (#[trigger] node.children[k])@.lines_fit(),
    ensures
        node@.lines_fit(),
{
    trees_of_each(node.children@);
    assert forall|i: int| 0 <= i < node@.children.len() implies (
    #[trigger] node@.children[i]).lines_fit() by {
        assert(node@.children[i] == node.children[i]@);
    }
}

/// Builds the tree whose node is `records[start]`. It returns the tree with
/// the position just past the tree's last record: the first position after
/// `start` whose record does not stand below `records[start]`.
fn build_subtree(records: &Vec<NodeRecord>, start: usize) -> (built: (SyntaxNode, usize))
    requires
        start < records.len(),
        well_nested(record_views(records@)),
    ensures
        start < built.1 <= records.len(),
        built.0@.listing(records[start as int].depth as nat) == record_views(records@).subrange(
            start as int,
            built.1 as int,
        ),
        built.1 < records.len() ==> records[built.1 as int].depth <= records[start as int].depth,
        built.0@.lines_fit(),
    decreases records.len() - start,
{
    let ghost views = record_views(records@);
    let depth = records[start].depth;
    let mut children: Vec<SyntaxNode> = Vec::new();
    let mut next: usize = start + 1;
    proof {
        assert(views[start as int] == records[start as int]@);
        assert(views.subrange(start + 1, next as int) == Seq::<RecordView>::empty());
        assert(trees_of(children@) == Seq::<NodeView>::empty());
        if next < records.len() {
            assert(views[next as int] == records[next as int]@);
            assert(views[next as int].depth <= views[next - 1].depth + 1);
        }
    }
    while next < records.len() && records[next].depth > depth
        invariant
            start < next <= records.len(),
            depth == records[start as int].depth,
            views == record_views(records@),
            well_nested(views),
            NodeView::listing_each(trees_of(children@), depth as nat + 1) == views.subrange(
                start + 1,
                next as int,
            ),
            next < records.len() ==> records[next as int].depth <= depth + 1,
            forall|k: int| 0 <= k < children.len() ==> (#[trigger] children[k])@.lines_fit(),
        decreases records.len() - next,
    {
        let (child, after) = build_subtree(records, next);
        proof {
            listing_grows(
                children@,
                child,
                depth as nat + 1,
                views,
                start + 1,
                next as int,
                after as int,
            );
        }
        children.push(child);
        next = after;
    }
    let node = SyntaxNode {
        kind: records[start].kind.clone(),
        field: copy_text(&records[start].field),
        start_row: records[start].start_row,
        end_row: records[start].end_row,
        start_byte: records[start].start_byte,
        end_byte: records[start].end_byte,
        children,
    };
    proof {
        assert(views[start as int] == records[start as int]@);
        assert(node@.record(depth as nat) == views[start as int]);
        listing_of_node(node, views, start as int, next as int);
        assert(views[start as int].start_row < usize::MAX);
        lines_fit_of_node(node);
    }
    (node, next)
}

impl SyntaxNode {
    /// Builds the tree that `records` list in document order. There is one
    /// exactly when `records` can be the listing of a tree from its root.
    pub fn from_listing(records: &Vec<NodeRecord>) -> (tree: Option<SyntaxNode>)
        ensures
            tree is Some <==> is_listing(record_views(records@)),
            tree matches Some(root) ==> {
                &&& root@.lines_fit()
                &&& root@.listing(0) == record_views(records@)
                &&& root@ == tree_of(record_views(records@))
            },
    {
        if !can_be_listing(records) {
            return None;
        }
        let (root, end) = build_subtree(records, 0);
        proof {
            let views = record_views(records@);
            if end < records.len() {
                assert(views[end as int].depth >= 1);
                assert(views[0] == records[0]@);
            }
            assert(views.subrange(0, end as int) == views);
            tree_of_listing(root@);
        }
        Some(root)
    }
}

} // verus!
