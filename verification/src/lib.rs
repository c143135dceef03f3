//! A virtual-tree comparison and rendering engine.
//!
//! The library keeps a tree-shaped representation of a user interface,
//! computes the structural changes between two tree snapshots, and renders a
//! snapshot to textual markup. Transport concerns (HTTP, JSON) live outside
//! the library and hand it plain snapshots.

use vstd::prelude::*;

mod diff;
mod render;
mod tree;

pub use diff::AppResponse;
pub use diff::Diff;
pub use diff::DiffView;
pub use diff::added_nodes_spec;
pub use diff::diff_list_view;
pub use diff::find_added_nodes;
pub use diff::find_added_nodes_recursive;
pub use diff::find_removed_nodes;
pub use diff::find_removed_nodes_recursive;
pub use diff::lemma_compare_self_empty;
pub use diff::lemma_empty_text_suppressed;
pub use diff::lemma_equal_snapshots_no_changes;
pub use diff::lemma_node_eq_reflexive;
pub use diff::lemma_removals_precede_additions;
pub use diff::lemma_unequal_roots_single_unit;
pub use diff::removed_nodes_spec;
pub use diff::response_changes;
pub use diff::snapshot_views;
pub use diff::update_dom;
pub use render::attr_markup;
pub use render::attrs_markup;
pub use render::children_markup;
pub use render::render_spec;
pub use render::virtual_dom_to_html;
pub use tree::ElementType;
pub use tree::NodeView;
pub use tree::VirtualNode;
pub use tree::attrs_contain;
pub use tree::attrs_eq;
pub use tree::attrs_subset;
pub use tree::attrs_view;
pub use tree::child_views;
pub use tree::is_empty_text;
pub use tree::lemma_child_views;
pub use tree::node_eq;
pub use tree::node_eq_spec;
pub use tree::node_view;

verus! {

broadcast use tree::lemma_child_views;

/// The model of the old snapshot that `run_app` compares from: a `div`
/// holding the input text and an `input` element.
pub open spec fn run_app_old_view(input: Seq<char>) -> NodeView {
    NodeView::Element(
        "div"@,
        Seq::empty(),
        seq![
            NodeView::Text(input),
            NodeView::Element("input"@, seq![("id"@, "myInput"@)], Seq::empty()),
        ],
    )
}

/// The model of the new snapshot that `run_app` compares to: a `div`
/// holding only the input text.
pub open spec fn run_app_new_view(input: Seq<char>) -> NodeView {
    NodeView::Element("div"@, Seq::empty(), seq![NodeView::Text(input)])
}

/// Compares the sample application's two snapshots around `dynamic_input`.
/// The roots differ in their child counts, so the change list is exactly the
/// removal of the whole old tree followed by the addition of the whole new
/// tree.
pub fn run_app(dynamic_input: &str) -> (r: AppResponse)
    ensures
        diff_list_view(r.diff@) == seq![
            DiffView::RemoveNode(run_app_old_view(dynamic_input@)),
            DiffView::AddNode(run_app_new_view(dynamic_input@)),
        ],
        r.html@ == render_spec(run_app_new_view(dynamic_input@)),
{
    let mut input_attrs: Vec<(String, String)> = Vec::new();
    input_attrs.push(("id".to_owned(), "myInput".to_owned()));
    let input_el = ElementType::Element("input".to_owned(), input_attrs, Vec::new());
    let mut old_children: Vec<ElementType> = Vec::new();
    old_children.push(ElementType::Text(dynamic_input.to_owned()));
    old_children.push(input_el);
    let old_dom = VirtualNode {
        element_type: ElementType::Element("div".to_owned(), Vec::new(), old_children),
    };

    let mut new_children: Vec<ElementType> = Vec::new();
    new_children.push(ElementType::Text(dynamic_input.to_owned()));
    let new_dom = VirtualNode {
        element_type: ElementType::Element("div".to_owned(), Vec::new(), new_children),
    };

    proof {
        assert(old_dom.view_of() == run_app_old_view(dynamic_input@)) by {
            assert(attrs_view(Seq::<(String, String)>::empty()) =~= Seq::<(
                Seq<char>,
                Seq<char>,
            )>::empty());
            assert(node_view(old_children@[1])->Element_1 =~= seq![("id"@, "myInput"@)]);
            assert(node_view(old_children@[1])->Element_2 =~= Seq::<NodeView>::empty());
            assert(node_view(old_children@[1]) == NodeView::Element(
                "input"@,
                seq![("id"@, "myInput"@)],
                Seq::<NodeView>::empty(),
            ));
            assert(child_views(old_children@) =~= seq![
                NodeView::Text(dynamic_input@),
                NodeView::Element("input"@, seq![("id"@, "myInput"@)], Seq::<NodeView>::empty()),
            ]);
        }
        assert(new_dom.view_of() == run_app_new_view(dynamic_input@)) by {
            assert(attrs_view(Seq::<(String, String)>::empty()) =~= Seq::<(
                Seq<char>,
                Seq<char>,
            )>::empty());
            assert(child_views(new_children@) =~= seq![NodeView::Text(dynamic_input@)]);
        }
        assert(!node_eq_spec(old_dom.view_of(), new_dom.view_of()));
        lemma_unequal_roots_single_unit(old_dom.view_of(), new_dom.view_of());
    }
    update_dom(&old_dom, &new_dom)
}

/// The model of the old snapshot that `update_input` compares from: a `div`
/// holding one empty text node.
pub open spec fn update_input_old_view() -> NodeView {
    NodeView::Element("div"@, Seq::empty(), seq![NodeView::Text(Seq::empty())])
}

/// The model of the new snapshot that `update_input` compares to: a `div`
/// holding the input text, or no children at all when the input is empty.
pub open spec fn update_input_new_view(input: Seq<char>) -> NodeView {
    NodeView::Element(
        "div"@,
        Seq::empty(),
        if input.len() == 0 {
            Seq::empty()
        } else {
            seq![NodeView::Text(input)]
        },
    )
}

/// Compares an empty-text `div` against a `div` reflecting `input`. The
/// roots always differ (in child count when the input is empty, in the text
/// child otherwise), so the change list is exactly the removal of the whole
/// old tree followed by the addition of the whole new tree.
pub fn update_input(input: String) -> (r: AppResponse)
    ensures
        diff_list_view(r.diff@) == seq![
            DiffView::RemoveNode(update_input_old_view()),
            DiffView::AddNode(update_input_new_view(input@)),
        ],
        r.html@ == render_spec(update_input_new_view(input@)),
{
    proof {
        reveal_strlit("");
    }
    let mut old_children: Vec<ElementType> = Vec::new();
    old_children.push(ElementType::Text("".to_owned()));
    let old_dom = VirtualNode {
        element_type: ElementType::Element("div".to_owned(), Vec::new(), old_children),
    };

    let mut new_children: Vec<ElementType> = Vec::new();
    if !input.as_str().is_empty() {
        new_children.push(ElementType::Text(input));
    }
    let new_dom = VirtualNode {
        element_type: ElementType::Element("div".to_owned(), Vec::new(), new_children),
    };

    proof {
        assert(attrs_view(Seq::<(String, String)>::empty()) =~= Seq::<(
            Seq<char>,
            Seq<char>,
        )>::empty());
        assert(""@ =~= Seq::<char>::empty());
        assert(old_dom.view_of() == update_input_old_view()) by {
            assert(child_views(old_children@) =~= seq![NodeView::Text(Seq::<char>::empty())]);
        }
        assert(new_dom.view_of() == update_input_new_view(input@)) by {
            if input@.len() == 0 {
                assert(child_views(new_children@) =~= Seq::<NodeView>::empty());
            } else {
                assert(child_views(new_children@) =~= seq![NodeView::Text(input@)]);
            }
        }
        assert(!node_eq_spec(old_dom.view_of(), new_dom.view_of())) by {
            if input@.len() != 0 {
                assert(child_views(old_children@)[0] == NodeView::Text(Seq::<char>::empty()));
                assert(!node_eq_spec(
                    child_views(old_children@)[0],
                    child_views(new_children@)[0],
                ));
            }
        }
        lemma_unequal_roots_single_unit(old_dom.view_of(), new_dom.view_of());
    }
    update_dom(&old_dom, &new_dom)
}

} // verus!
