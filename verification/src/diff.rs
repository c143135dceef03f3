//! The diff engine: walks two trees in lock-step and produces the removal
//! and addition events between them, removals first.
//!
//! At each compared position, structurally unequal nodes make the whole
//! subtree one removal or addition unit (no descent), except that an empty
//! text node is never reported on either side. Equal element nodes are
//! recursed into pairwise by child index, stopping at the shorter child
//! list; equal children lists always have equal lengths, so the truncation
//! is a stated policy of the walk, not a source of extra events.

use vstd::prelude::*;

use crate::tree::ElementType;
use crate::tree::NodeView;
use crate::tree::VirtualNode;
use crate::tree::attrs_contain;
use crate::tree::child_views;
use crate::tree::is_empty_text;
use crate::tree::lemma_child_views;
use crate::tree::node_eq;
use crate::tree::node_eq_spec;
use crate::tree::node_view;

verus! {

/// The model of one change event: the model of the added or removed subtree.
pub enum DiffView {
    AddNode(NodeView),
    RemoveNode(NodeView),
}

/// One change event, carrying the affected subtree by value.
#[derive(Debug)]
pub enum Diff {
    AddNode(VirtualNode),
    RemoveNode(VirtualNode),
}

impl Diff {
    /// The model of a change event.
    pub open spec fn view_of(self) -> DiffView {
        match self {
            Diff::AddNode(n) => DiffView::AddNode(n.view_of()),
            Diff::RemoveNode(n) => DiffView::RemoveNode(n.view_of()),
        }
    }
}

impl PartialEq for Diff {
    fn eq(&self, other: &Self) -> (r: bool) {
        match (self, other) {
            (Diff::AddNode(node1), Diff::AddNode(node2)) => *node1 == *node2,
            (Diff::RemoveNode(node1), Diff::RemoveNode(node2)) => *node1 == *node2,
            _ => false,
        }
    }
}

impl vstd::std_specs::cmp::PartialEqSpecImpl for Diff {
    open spec fn obeys_eq_spec() -> bool {
        true
    }

    open spec fn eq_spec(&self, other: &Self) -> bool {
        match (self, other) {
            (Diff::AddNode(node1), Diff::AddNode(node2)) => node_eq_spec(
                node1.view_of(),
                node2.view_of(),
            ),
            (Diff::RemoveNode(node1), Diff::RemoveNode(node2)) => node_eq_spec(
                node1.view_of(),
                node2.view_of(),
            ),
            _ => false,
        }
    }
}

/// The models of a list of snapshots, in order.
pub open spec fn snapshot_views(nodes: Seq<VirtualNode>) -> Seq<NodeView> {
    Seq::new(nodes.len(), |i: int| nodes[i].view_of())
}

/// The models of a list of change events, in order.
pub open spec fn diff_list_view(diffs: Seq<Diff>) -> Seq<DiffView> {
    Seq::new(diffs.len(), |i: int| diffs[i].view_of())
}

/// The removal events of the removal pass: an unequal position yields the
/// whole old subtree as one unit, unless the old node is empty text; equal
/// element positions are recursed into pairwise.
pub open spec fn removed_nodes_spec(old_node: NodeView, new_node: NodeView) -> Seq<NodeView>
    decreases old_node, 0int, 0int,
{
    if !node_eq_spec(old_node, new_node) {
        if is_empty_text(old_node) {
            Seq::empty()
        } else {
            seq![old_node]
        }
    } else {
        match (old_node, new_node) {
            (NodeView::Element(_, _, oc), NodeView::Element(_, _, nc)) => removed_in_children(
                oc,
                nc,
                0,
            ),
            _ => Seq::empty(),
        }
    }
}

/// The removal events found under the child pairs from index `i` on,
/// stopping at the shorter child list.
pub open spec fn removed_in_children(oc: Seq<NodeView>, nc: Seq<NodeView>, i: int) -> Seq<NodeView>
    decreases oc, 1int, oc.len() - i,
{
    if 0 <= i < oc.len() && i < nc.len() {
        removed_nodes_spec(oc[i], nc[i]) + removed_in_children(oc, nc, i + 1)
    } else {
        Seq::empty()
    }
}

/// The addition events of the addition pass: the mirror image of the
/// removal pass, reporting the new subtree and skipping empty text on the
/// new side.
pub open spec fn added_nodes_spec(old_node: NodeView, new_node: NodeView) -> Seq<NodeView>
    decreases old_node, 0int, 0int,
{
    if !node_eq_spec(old_node, new_node) {
        if is_empty_text(new_node) {
            Seq::empty()
        } else {
            seq![new_node]
        }
    } else {
        match (old_node, new_node) {
            (NodeView::Element(_, _, oc), NodeView::Element(_, _, nc)) => added_in_children(
                oc,
                nc,
                0,
            ),
            _ => Seq::empty(),
        }
    }
}

/// The addition events found under the child pairs from index `i` on.
pub open spec fn added_in_children(oc: Seq<NodeView>, nc: Seq<NodeView>, i: int) -> Seq<NodeView>
    decreases oc, 1int, oc.len() - i,
{
    if 0 <= i < oc.len() && i < nc.len() {
        added_nodes_spec(oc[i], nc[i]) + added_in_children(oc, nc, i + 1)
    } else {
        Seq::empty()
    }
}

/// The removal events as change events.
pub open spec fn as_removals(nodes: Seq<NodeView>) -> Seq<DiffView> {
    Seq::new(nodes.len(), |i: int| DiffView::RemoveNode(nodes[i]))
}

/// The addition events as change events.
pub open spec fn as_additions(nodes: Seq<NodeView>) -> Seq<DiffView> {
    Seq::new(nodes.len(), |i: int| DiffView::AddNode(nodes[i]))
}

/// The full change list of one comparison: all removals, in order of
/// detection, followed by all additions, in order of detection.
pub open spec fn response_changes(old_node: NodeView, new_node: NodeView) -> Seq<DiffView> {
    as_removals(removed_nodes_spec(old_node, new_node)) + as_additions(
        added_nodes_spec(old_node, new_node),
    )
}

/// Collects the removal events of the comparison.
pub fn find_removed_nodes(old_node: &VirtualNode, new_node: &VirtualNode) -> (r: Vec<VirtualNode>)
    ensures
        snapshot_views(r@) == removed_nodes_spec(old_node.view_of(), new_node.view_of()),
{
    let mut removed_nodes: Vec<VirtualNode> = Vec::new();
    proof {
        assert(snapshot_views(removed_nodes@) =~= Seq::<NodeView>::empty());
    }
    find_removed_nodes_recursive(&old_node.element_type, &new_node.element_type, &mut removed_nodes);
    proof {
        assert(snapshot_views(removed_nodes@) =~= removed_nodes_spec(
            old_node.view_of(),
            new_node.view_of(),
        ));
    }
    removed_nodes
}

/// Walks the two trees and appends the removal events to `removed_nodes`.
pub fn find_removed_nodes_recursive(
    old_node: &ElementType,
    new_node: &ElementType,
    removed_nodes: &mut Vec<VirtualNode>,
)
    ensures
        snapshot_views(final(removed_nodes)@) == snapshot_views(old(removed_nodes)@)
            + removed_nodes_spec(node_view(*old_node), node_view(*new_node)),
    decreases *old_node, 0int, 0int,
{
    broadcast use lemma_child_views;

    if !node_eq(old_node, new_node) {
        if !old_node.is_empty_text_node() {
            removed_nodes.push(VirtualNode { element_type: old_node.clone() });
        }
        proof {
            assert(snapshot_views(removed_nodes@) =~= snapshot_views(old(removed_nodes)@)
                + removed_nodes_spec(node_view(*old_node), node_view(*new_node)));
        }
    } else if let ElementType::Element(_, _, old_children) = old_node {
        if let ElementType::Element(_, _, new_children) = new_node {
            removed_children_walk(old_children, new_children, 0, removed_nodes);
        } else {
            proof {
                assert(snapshot_views(removed_nodes@) =~= snapshot_views(removed_nodes@)
                    + removed_nodes_spec(node_view(*old_node), node_view(*new_node)));
            }
        }
    } else {
        proof {
            assert(snapshot_views(removed_nodes@) =~= snapshot_views(removed_nodes@)
                + removed_nodes_spec(node_view(*old_node), node_view(*new_node)));
        }
    }
}

/// Walks the child pairs from index `i` on and appends their removal
/// events, stopping at the shorter child list.
fn removed_children_walk(
    old_children: &Vec<ElementType>,
    new_children: &Vec<ElementType>,
    i: usize,
    removed_nodes: &mut Vec<VirtualNode>,
)
    ensures
        snapshot_views(final(removed_nodes)@) == snapshot_views(old(removed_nodes)@)
            + removed_in_children(
                child_views(old_children@),
                child_views(new_children@),
                i as int,
            ),
    decreases *old_children, 1int, old_children@.len() - i,
{
    broadcast use lemma_child_views;

    if i < old_children.len() && i < new_children.len() {
        find_removed_nodes_recursive(&old_children[i], &new_children[i], removed_nodes);
        removed_children_walk(old_children, new_children, i + 1, removed_nodes);
        proof {
            assert(child_views(old_children@)[i as int] == node_view(old_children@[i as int]));
            assert(child_views(new_children@)[i as int] == node_view(new_children@[i as int]));
            assert(snapshot_views(removed_nodes@) =~= snapshot_views(old(removed_nodes)@)
                + removed_in_children(
                    child_views(old_children@),
                    child_views(new_children@),
                    i as int,
                ));
        }
    } else {
        proof {
            assert(snapshot_views(removed_nodes@) =~= snapshot_views(removed_nodes@)
                + removed_in_children(
                    child_views(old_children@),
                    child_views(new_children@),
                    i as int,
                ));
        }
    }
}

/// Collects the addition events of the comparison.
pub fn find_added_nodes(old_node: &VirtualNode, new_node: &VirtualNode) -> (r: Vec<VirtualNode>)
    ensures
        snapshot_views(r@) == added_nodes_spec(old_node.view_of(), new_node.view_of()),
{
    let mut added_nodes: Vec<VirtualNode> = Vec::new();
    proof {
        assert(snapshot_views(added_nodes@) =~= Seq::<NodeView>::empty());
    }
    find_added_nodes_recursive(&old_node.element_type, &new_node.element_type, &mut added_nodes);
    proof {
        assert(snapshot_views(added_nodes@) =~= added_nodes_spec(
            old_node.view_of(),
            new_node.view_of(),
        ));
    }
    added_nodes
}

/// Walks the two trees and appends the addition events to `added_nodes`.
pub fn find_added_nodes_recursive(
    old_node: &ElementType,
    new_node: &ElementType,
    added_nodes: &mut Vec<VirtualNode>,
)
    ensures
        snapshot_views(final(added_nodes)@) == snapshot_views(old(added_nodes)@)
            + added_nodes_spec(node_view(*old_node), node_view(*new_node)),
    decreases *old_node, 0int, 0int,
{
    broadcast use lemma_child_views;

    if !node_eq(old_node, new_node) {
        if !new_node.is_empty_text_node() {
            added_nodes.push(VirtualNode { element_type: new_node.clone() });
        }
        proof {
            assert(snapshot_views(added_nodes@) =~= snapshot_views(old(added_nodes)@)
                + added_nodes_spec(node_view(*old_node), node_view(*new_node)));
        }
    } else if let ElementType::Element(_, _, old_children) = old_node {
        if let ElementType::Element(_, _, new_children) = new_node {
            added_children_walk(old_children, new_children, 0, added_nodes);
        } else {
            proof {
                assert(snapshot_views(added_nodes@) =~= snapshot_views(added_nodes@)
                    + added_nodes_spec(node_view(*old_node), node_view(*new_node)));
            }
        }
    } else {
        proof {
            assert(snapshot_views(added_nodes@) =~= snapshot_views(added_nodes@)
                + added_nodes_spec(node_view(*old_node), node_view(*new_node)));
        }
    }
}

/// Walks the child pairs from index `i` on and appends their addition
/// events, stopping at the shorter child list.
fn added_children_walk(
    old_children: &Vec<ElementType>,
    new_children: &Vec<ElementType>,
    i: usize,
    added_nodes: &mut Vec<VirtualNode>,
)
    ensures
        snapshot_views(final(added_nodes)@) == snapshot_views(old(added_nodes)@)
            + added_in_children(
                child_views(old_children@),
                child_views(new_children@),
                i as int,
            ),
    decreases *old_children, 1int, old_children@.len() - i,
{
    broadcast use lemma_child_views;

    if i < old_children.len() && i < new_children.len() {
        find_added_nodes_recursive(&old_children[i], &new_children[i], added_nodes);
        added_children_walk(old_children, new_children, i + 1, added_nodes);
        proof {
            assert(child_views(old_children@)[i as int] == node_view(old_children@[i as int]));
            assert(child_views(new_children@)[i as int] == node_view(new_children@[i as int]));
            assert(snapshot_views(added_nodes@) =~= snapshot_views(old(added_nodes)@)
                + added_in_children(
                    child_views(old_children@),
                    child_views(new_children@),
                    i as int,
                ));
        }
    } else {
        proof {
            assert(snapshot_views(added_nodes@) =~= snapshot_views(added_nodes@)
                + added_in_children(
                    child_views(old_children@),
                    child_views(new_children@),
                    i as int,
                ));
        }
    }
}

/// The result of one comparison: the ordered change list and the rendered
/// markup of the new snapshot.
#[derive(Debug)]
pub struct AppResponse {
    pub diff: Vec<Diff>,
    pub html: String,
}

/// Compares two snapshots and assembles the response: all removal events,
/// then all addition events, plus the markup of the new snapshot.
pub fn update_dom(old_node: &VirtualNode, new_node: &VirtualNode) -> (r: AppResponse)
    ensures
        diff_list_view(r.diff@) == response_changes(old_node.view_of(), new_node.view_of()),
        r.html@ == crate::render::render_spec(new_node.view_of()),
{
    let ghost old_view = old_node.view_of();
    let ghost new_view = new_node.view_of();
    let mut diff: Vec<Diff> = Vec::new();

    let removed_nodes = find_removed_nodes(old_node, new_node);
    let ghost removed_views = snapshot_views(removed_nodes@);
    let mut k: usize = 0;
    while k < removed_nodes.len()
        invariant
            k <= removed_nodes@.len(),
            diff@.len() == k,
            removed_views == snapshot_views(removed_nodes@),
            removed_views == removed_nodes_spec(old_view, new_view),
            forall|j: int|
                0 <= j < k ==> (#[trigger] diff@[j]).view_of() == DiffView::RemoveNode(
                    removed_views[j],
                ),
        decreases removed_nodes@.len() - k,
    {
        diff.push(Diff::RemoveNode(removed_nodes[k].clone()));
        proof {
            assert(snapshot_views(removed_nodes@)[k as int] == removed_nodes@[k as int].view_of());
        }
        k = k + 1;
    }

    let added_nodes = find_added_nodes(old_node, new_node);
    let ghost added_views = snapshot_views(added_nodes@);
    let ghost n_removed = removed_nodes@.len();
    let mut k2: usize = 0;
    while k2 < added_nodes.len()
        invariant
            k2 <= added_nodes@.len(),
            diff@.len() == n_removed + k2,
            removed_views == removed_nodes_spec(old_view, new_view),
            removed_views.len() == n_removed,
            added_views == snapshot_views(added_nodes@),
            added_views == added_nodes_spec(old_view, new_view),
            forall|j: int|
                0 <= j < n_removed ==> (#[trigger] diff@[j]).view_of() == DiffView::RemoveNode(
                    removed_views[j],
                ),
            forall|j: int|
                0 <= j < k2 ==> (#[trigger] diff@[n_removed + j]).view_of()
                    == DiffView::AddNode(added_views[j]),
        decreases added_nodes@.len() - k2,
    {
        diff.push(Diff::AddNode(added_nodes[k2].clone()));
        proof {
            assert(snapshot_views(added_nodes@)[k2 as int] == added_nodes@[k2 as int].view_of());
        }
        k2 = k2 + 1;
    }

    let html = crate::render::virtual_dom_to_html(&new_node.element_type);
    proof {
        let cs = response_changes(old_view, new_view);
        let dv = diff_list_view(diff@);
        assert(dv.len() == cs.len());
        assert forall|j: int| 0 <= j < dv.len() implies dv[j] == cs[j] by {
            assert(dv[j] == diff@[j].view_of());
            if j >= n_removed {
                let j2 = j - n_removed;
                assert(diff@[n_removed + j2] == diff@[j]);
            }
        }
        assert(dv =~= cs);
    }
    AppResponse { diff, html }
}

/// Structural node equality is reflexive.
pub proof fn lemma_node_eq_reflexive(n: NodeView)
    ensures
        node_eq_spec(n, n),
    decreases n,
{
    match n {
        NodeView::Text(_) => {},
        NodeView::Element(_, attrs, ch) => {
            assert forall|i: int| 0 <= i < attrs.len() implies attrs_contain(
                attrs,
                #[trigger] attrs[i],
            ) by {
                assert(0 <= i < attrs.len() && attrs[i] == attrs[i]);
            }
            assert forall|i: int| 0 <= i < ch.len() implies node_eq_spec(
                #[trigger] ch[i],
                ch[i],
            ) by {
                lemma_node_eq_reflexive(ch[i]);
            }
        },
    }
}

proof fn lemma_diff_empty_when_eq(old_node: NodeView, new_node: NodeView)
    requires
        node_eq_spec(old_node, new_node),
    ensures
        removed_nodes_spec(old_node, new_node) == Seq::<NodeView>::empty(),
        added_nodes_spec(old_node, new_node) == Seq::<NodeView>::empty(),
    decreases old_node, 0int, 0int,
{
    match (old_node, new_node) {
        (NodeView::Element(_, _, oc), NodeView::Element(_, _, nc)) => {
            lemma_diff_children_empty(oc, nc, 0);
        },
        _ => {},
    }
}

proof fn lemma_diff_children_empty(oc: Seq<NodeView>, nc: Seq<NodeView>, i: int)
    requires
        oc.len() == nc.len(),
        forall|k: int| 0 <= k < oc.len() ==> node_eq_spec(#[trigger] oc[k], nc[k]),
    ensures
        removed_in_children(oc, nc, i) == Seq::<NodeView>::empty(),
        added_in_children(oc, nc, i) == Seq::<NodeView>::empty(),
    decreases oc, 1int, oc.len() - i,
{
    if 0 <= i < oc.len() {
        lemma_diff_empty_when_eq(oc[i], nc[i]);
        lemma_diff_children_empty(oc, nc, i + 1);
        assert(removed_in_children(oc, nc, i) =~= Seq::<NodeView>::empty());
        assert(added_in_children(oc, nc, i) =~= Seq::<NodeView>::empty());
    }
}

/// Comparing structurally equal snapshots yields an empty change list.
pub proof fn lemma_equal_snapshots_no_changes(old_node: NodeView, new_node: NodeView)
    requires
        node_eq_spec(old_node, new_node),
    ensures
        response_changes(old_node, new_node) == Seq::<DiffView>::empty(),
{
    lemma_diff_empty_when_eq(old_node, new_node);
    assert(response_changes(old_node, new_node) =~= Seq::<DiffView>::empty());
}

/// Comparing a snapshot with itself yields an empty change list.
pub proof fn lemma_compare_self_empty(s: NodeView)
    ensures
        response_changes(s, s) == Seq::<DiffView>::empty(),
{
    lemma_node_eq_reflexive(s);
    lemma_equal_snapshots_no_changes(s, s);
}

/// In every change list, every removal event precedes every addition event.
pub proof fn lemma_removals_precede_additions(old_node: NodeView, new_node: NodeView)
    ensures
        forall|i: int, j: int|
            0 <= i < response_changes(old_node, new_node).len() && 0 <= j < response_changes(
                old_node,
                new_node,
            ).len() && #[trigger] response_changes(old_node, new_node)[i] is RemoveNode
                && #[trigger] response_changes(old_node, new_node)[j] is AddNode ==> i < j,
{
    let cs = response_changes(old_node, new_node);
    let r = as_removals(removed_nodes_spec(old_node, new_node));
    let a = as_additions(added_nodes_spec(old_node, new_node));
    assert forall|i: int, j: int|
        0 <= i < cs.len() && 0 <= j < cs.len() && #[trigger] cs[i] is RemoveNode
            && #[trigger] cs[j] is AddNode implies i < j by {
        if i >= r.len() {
            assert(cs[i] == a[i - r.len()]);
        }
        if j < r.len() {
            assert(cs[j] == r[j]);
        }
    }
}

/// An empty text node is never reported: not as removed when it stands on
/// the old side, and not as added when it stands on the new side, whatever
/// the other side of the comparison holds.
pub proof fn lemma_empty_text_suppressed(old_node: NodeView, new_node: NodeView)
    ensures
        is_empty_text(old_node) ==> removed_nodes_spec(old_node, new_node)
            == Seq::<NodeView>::empty(),
        is_empty_text(new_node) ==> added_nodes_spec(old_node, new_node)
            == Seq::<NodeView>::empty(),
{
    if node_eq_spec(old_node, new_node) {
        lemma_diff_empty_when_eq(old_node, new_node);
    }
}

/// Structurally unequal roots are reported as one removal unit and one
/// addition unit: the walk does not descend, so child counts beyond the
/// compared pair contribute no events of their own.
pub proof fn lemma_unequal_roots_single_unit(old_node: NodeView, new_node: NodeView)
    requires
        !node_eq_spec(old_node, new_node),
    ensures
        removed_nodes_spec(old_node, new_node) == if is_empty_text(old_node) {
            Seq::<NodeView>::empty()
        } else {
            seq![old_node]
        },
        added_nodes_spec(old_node, new_node) == if is_empty_text(new_node) {
            Seq::<NodeView>::empty()
        } else {
            seq![new_node]
        },
        !is_empty_text(old_node) && !is_empty_text(new_node) ==> response_changes(
            old_node,
            new_node,
        ) == seq![DiffView::RemoveNode(old_node), DiffView::AddNode(new_node)],
{
    if !is_empty_text(old_node) && !is_empty_text(new_node) {
        assert(response_changes(old_node, new_node) =~= seq![
            DiffView::RemoveNode(old_node),
            DiffView::AddNode(new_node),
        ]);
    }
}

} // verus!
