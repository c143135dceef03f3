//! The virtual tree data model: text leaves and tagged elements, with
//! structural equality and the empty-text predicate that drives the diff
//! policy.
//!
//! Attributes are held as an ordered list of `(name, value)` pairs; two
//! attribute lists count as equal when they hold the same set of pairs,
//! regardless of order, so node equality treats attributes as a mapping
//! while the renderer keeps the stored order.

use vstd::prelude::*;

verus! {

/// The mathematical model of a node: a text leaf carries its characters; an
/// element carries its tag characters, its attribute pairs in stored order,
/// and the models of its children in order.
pub enum NodeView {
    Text(Seq<char>),
    Element(Seq<char>, Seq<(Seq<char>, Seq<char>)>, Seq<NodeView>),
}

/// A node of the virtual tree: either a text leaf or a tagged element with
/// attributes and an ordered list of children.
#[derive(Debug)]
pub enum ElementType {
    Text(String),
    Element(String, Vec<(String, String)>, Vec<ElementType>),
}

/// A snapshot of the whole tree: one root node.
#[derive(Debug)]
pub struct VirtualNode {
    pub element_type: ElementType,
}

/// The models of the attribute pairs, in stored order.
pub open spec fn attrs_view(attrs: Seq<(String, String)>) -> Seq<(Seq<char>, Seq<char>)> {
    Seq::new(attrs.len(), |i: int| (attrs[i].0@, attrs[i].1@))
}

/// The model of a node.
pub open spec fn node_view(n: ElementType) -> NodeView
    decreases n, 0int, 0int,
{
    match n {
        ElementType::Text(t) => NodeView::Text(t@),
        ElementType::Element(tag, attrs, children) => NodeView::Element(
            tag@,
            attrs_view(attrs@),
            child_views(children@),
        ),
    }
}

/// The models of the nodes of `children` from index `i` on, in order.
pub open spec fn child_views_from(children: Seq<ElementType>, i: int) -> Seq<NodeView>
    decreases children, 1int, children.len() - i,
{
    if 0 <= i < children.len() {
        seq![node_view(children[i])] + child_views_from(children, i + 1)
    } else {
        Seq::empty()
    }
}

/// The models of a list of nodes, in order.
pub open spec fn child_views(children: Seq<ElementType>) -> Seq<NodeView>
    decreases children, 1int, children.len() + 1,
{
    child_views_from(children, 0)
}

proof fn lemma_child_views_from(children: Seq<ElementType>, i: int)
    requires
        0 <= i <= children.len(),
    ensures
        child_views_from(children, i).len() == children.len() - i,
        forall|j: int|
            i <= j < children.len() ==> child_views_from(children, i)[j - i] == node_view(
                #[trigger] children[j],
            ),
    decreases children.len() - i,
{
    if i < children.len() {
        lemma_child_views_from(children, i + 1);
    }
}

/// The model list of a child list has one entry for each child, in order:
/// the model of that child.
pub broadcast proof fn lemma_child_views(children: Seq<ElementType>)
    ensures
        (#[trigger] child_views(children)).len() == children.len(),
        forall|j: int|
            0 <= j < children.len() ==> #[trigger] child_views(children)[j] == node_view(
                children[j],
            ),
{
    lemma_child_views_from(children, 0);
}

impl VirtualNode {
    /// The model of a snapshot: the model of its root node.
    pub open spec fn view_of(self) -> NodeView {
        node_view(self.element_type)
    }
}

/// True when the pair `kv` occurs somewhere in `attrs`.
pub open spec fn attrs_contain(
    attrs: Seq<(Seq<char>, Seq<char>)>,
    kv: (Seq<char>, Seq<char>),
) -> bool {
    exists|j: int| 0 <= j < attrs.len() && attrs[j] == kv
}

/// True when every pair of `a` occurs in `b`.
pub open spec fn attrs_subset(
    a: Seq<(Seq<char>, Seq<char>)>,
    b: Seq<(Seq<char>, Seq<char>)>,
) -> bool {
    forall|i: int| 0 <= i < a.len() ==> attrs_contain(b, #[trigger] a[i])
}

/// Attribute lists are equal as sets of `(name, value)` pairs: the order in
/// which the pairs are stored does not matter for node equality.
pub open spec fn attrs_eq(a: Seq<(Seq<char>, Seq<char>)>, b: Seq<(Seq<char>, Seq<char>)>) -> bool {
    attrs_subset(a, b) && attrs_subset(b, a)
}

/// Structural equality of nodes: same variant, same text or tag, equal
/// attribute sets, and children equal pairwise in order. Children lists of
/// different lengths are unequal.
pub open spec fn node_eq_spec(a: NodeView, b: NodeView) -> bool
    decreases a,
{
    match (a, b) {
        (NodeView::Text(t1), NodeView::Text(t2)) => t1 == t2,
        (NodeView::Element(tag1, attrs1, ch1), NodeView::Element(tag2, attrs2, ch2)) => {
            &&& tag1 == tag2
            &&& attrs_eq(attrs1, attrs2)
            &&& ch1.len() == ch2.len()
            &&& forall|i: int| 0 <= i < ch1.len() ==> node_eq_spec(#[trigger] ch1[i], ch2[i])
        },
        _ => false,
    }
}

/// True iff the node is a text leaf with no content. Such a node is never
/// reported by the diff, on either side of the comparison.
pub open spec fn is_empty_text(node: NodeView) -> bool {
    match node {
        NodeView::Text(t) => t.len() == 0,
        _ => false,
    }
}

impl ElementType {
    /// True iff the node is a `Text` variant with zero-length content.
    pub fn is_empty_text_node(&self) -> (r: bool)
        ensures
            r == is_empty_text(node_view(*self)),
    {
        if let ElementType::Text(text) = self {
            text.as_str().is_empty()
        } else {
            false
        }
    }
}

/// Decides whether every pair of `a` also occurs in `b`.
fn attrs_subset_exec(a: &Vec<(String, String)>, b: &Vec<(String, String)>) -> (r: bool)
    ensures
        r == attrs_subset(attrs_view(a@), attrs_view(b@)),
{
    let mut i: usize = 0;
    while i < a.len()
        invariant
            i <= a@.len(),
            forall|k: int|
                0 <= k < i ==> attrs_contain(attrs_view(b@), #[trigger] attrs_view(a@)[k]),
        decreases a@.len() - i,
    {
        let mut j: usize = 0;
        let mut found: bool = false;
        while j < b.len()
            invariant
                j <= b@.len(),
                i < a@.len(),
                found ==> attrs_contain(attrs_view(b@), attrs_view(a@)[i as int]),
                !found ==> forall|k: int|
                    0 <= k < j ==> attrs_view(b@)[k] != attrs_view(a@)[i as int],
            decreases b@.len() - j,
        {
            proof {
                assert(attrs_view(a@)[i as int] == (a@[i as int].0@, a@[i as int].1@));
                assert(attrs_view(b@)[j as int] == (b@[j as int].0@, b@[j as int].1@));
            }
            if b[j].0 == a[i].0 && b[j].1 == a[i].1 {
                found = true;
            }
            j = j + 1;
        }
        if !found {
            assert(!attrs_contain(attrs_view(b@), attrs_view(a@)[i as int]));
            return false;
        }
        i = i + 1;
    }
    true
}

/// Decides structural node equality, matching `node_eq_spec` exactly.
pub fn node_eq(a: &ElementType, b: &ElementType) -> (r: bool)
    ensures
        r == node_eq_spec(node_view(*a), node_view(*b)),
    decreases *a, 0int, 0int,
{
    broadcast use lemma_child_views;

    match (a, b) {
        (ElementType::Text(t1), ElementType::Text(t2)) => *t1 == *t2,
        (ElementType::Element(tag1, attrs1, ch1), ElementType::Element(tag2, attrs2, ch2)) => {
            proof {
                assert(node_view(*a) == NodeView::Element(
                    tag1@,
                    attrs_view(attrs1@),
                    child_views(ch1@),
                ));
                assert(node_view(*b) == NodeView::Element(
                    tag2@,
                    attrs_view(attrs2@),
                    child_views(ch2@),
                ));
            }
            if !(*tag1 == *tag2) {
                return false;
            }
            if !attrs_subset_exec(attrs1, attrs2) || !attrs_subset_exec(attrs2, attrs1) {
                return false;
            }
            if ch1.len() != ch2.len() {
                return false;
            }
            children_eq(ch1, ch2, 0)
        },
        _ => false,
    }
}

/// Decides pairwise equality of the child lists from index `i` on.
fn children_eq(ch1: &Vec<ElementType>, ch2: &Vec<ElementType>, i: usize) -> (r: bool)
    requires
        ch1@.len() == ch2@.len(),
        i <= ch1@.len(),
    ensures
        r == forall|k: int|
            i <= k < child_views(ch1@).len() ==> node_eq_spec(
                #[trigger] child_views(ch1@)[k],
                child_views(ch2@)[k],
            ),
    decreases *ch1, 1int, ch1@.len() - i,
{
    broadcast use lemma_child_views;

    if i < ch1.len() {
        let eq_i = node_eq(&ch1[i], &ch2[i]);
        proof {
            assert(child_views(ch1@)[i as int] == node_view(ch1@[i as int]));
            assert(child_views(ch2@)[i as int] == node_view(ch2@[i as int]));
        }
        if !eq_i {
            return false;
        }
        children_eq(ch1, ch2, i + 1)
    } else {
        true
    }
}

/// Copies an attribute list pair by pair.
fn clone_attrs(attrs: &Vec<(String, String)>) -> (res: Vec<(String, String)>)
    ensures
        res@ == attrs@,
{
    let mut out: Vec<(String, String)> = Vec::new();
    let mut i: usize = 0;
    while i < attrs.len()
        invariant
            i <= attrs@.len(),
            out@ == attrs@.subrange(0, i as int),
        decreases attrs@.len() - i,
    {
        out.push((attrs[i].0.clone(), attrs[i].1.clone()));
        assert(out@ =~= attrs@.subrange(0, i + 1 as int));
        i = i + 1;
    }
    assert(out@ =~= attrs@);
    out
}

/// Copies a child list node by node.
fn clone_children(children: &Vec<ElementType>) -> (res: Vec<ElementType>)
    ensures
        child_views(res@) == child_views(children@),
    decreases *children, 1int, 0int,
{
    broadcast use lemma_child_views;

    let mut out: Vec<ElementType> = Vec::new();
    let mut i: usize = 0;
    while i < children.len()
        invariant
            i <= children@.len(),
            out@.len() == i,
            forall|k: int| 0 <= k < i ==> node_view(#[trigger] out@[k]) == node_view(children@[k]),
        decreases children@.len() - i,
    {
        out.push(children[i].clone());
        i = i + 1;
    }
    assert(child_views(out@) =~= child_views(children@));
    out
}

impl Clone for ElementType {
    /// Deep copy: the copy has the same model as the original.
    fn clone(&self) -> (res: Self)
        ensures
            node_view(res) == node_view(*self),
        decreases *self, 0int, 0int,
    {
        match self {
            ElementType::Text(t) => ElementType::Text(t.clone()),
            ElementType::Element(tag, attrs, children) => ElementType::Element(
                tag.clone(),
                clone_attrs(attrs),
                clone_children(children),
            ),
        }
    }
}

impl Clone for VirtualNode {
    /// Deep copy: the copy has the same model as the original.
    fn clone(&self) -> (res: Self)
        ensures
            res.view_of() == self.view_of(),
    {
        VirtualNode { element_type: self.element_type.clone() }
    }
}

impl PartialEq for ElementType {
    fn eq(&self, other: &Self) -> (r: bool) {
        node_eq(self, other)
    }
}

impl vstd::std_specs::cmp::PartialEqSpecImpl for ElementType {
    open spec fn obeys_eq_spec() -> bool {
        true
    }

    open spec fn eq_spec(&self, other: &Self) -> bool {
        node_eq_spec(node_view(*self), node_view(*other))
    }
}

impl PartialEq for VirtualNode {
    fn eq(&self, other: &Self) -> (r: bool) {
        node_eq(&self.element_type, &other.element_type)
    }
}

impl vstd::std_specs::cmp::PartialEqSpecImpl for VirtualNode {
    open spec fn obeys_eq_spec() -> bool {
        true
    }

    open spec fn eq_spec(&self, other: &Self) -> bool {
        node_eq_spec(self.view_of(), other.view_of())
    }
}

} // verus!
