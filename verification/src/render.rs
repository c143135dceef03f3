//! The renderer: serializes a tree node to textual markup.
//!
//! A text node renders as its literal content, with no escaping. An element
//! renders as `<tag attrs>children</tag>`: one space always follows the tag
//! name, the attributes render as `name="value"` joined by single spaces in
//! stored order, and the children render concatenated with no separator.

use vstd::prelude::*;

use crate::tree::ElementType;
use crate::tree::NodeView;
use crate::tree::child_views;
use crate::tree::lemma_child_views;
use crate::tree::node_view;
use vstd::string::StringExecFns;

verus! {

/// The markup of one attribute pair: `name="value"`.
pub open spec fn attr_markup(kv: (Seq<char>, Seq<char>)) -> Seq<char> {
    kv.0 + seq!['=', '"'] + kv.1 + seq!['"']
}

/// The markup of the attribute pairs from index `i` on, joined by single
/// spaces; empty for an empty list.
pub open spec fn attrs_markup(attrs: Seq<(Seq<char>, Seq<char>)>, i: int) -> Seq<char>
    decreases attrs.len() - i,
{
    if 0 <= i < attrs.len() {
        if i + 1 < attrs.len() {
            attr_markup(attrs[i]) + seq![' '] + attrs_markup(attrs, i + 1)
        } else {
            attr_markup(attrs[i])
        }
    } else {
        Seq::empty()
    }
}

/// The markup of a node: a text node is its content verbatim; an element is
/// `<tag attrs>children</tag>` with a space always following the tag name.
pub open spec fn render_spec(node: NodeView) -> Seq<char>
    decreases node, 0int, 0int,
{
    match node {
        NodeView::Text(t) => t,
        NodeView::Element(tag, attrs, children) => seq!['<'] + tag + seq![' '] + attrs_markup(
            attrs,
            0,
        ) + seq!['>'] + children_markup(children, 0) + seq!['<', '/'] + tag + seq!['>'],
    }
}

/// The concatenated markup of the children from index `i` on, with no
/// separator.
pub open spec fn children_markup(children: Seq<NodeView>, i: int) -> Seq<char>
    decreases children, 1int, children.len() - i,
{
    if 0 <= i < children.len() {
        render_spec(children[i]) + children_markup(children, i + 1)
    } else {
        Seq::empty()
    }
}

/// Appends the markup of the attribute pairs from index `i` on.
fn append_attrs(attrs: &Vec<(String, String)>, i: usize, out: &mut String)
    ensures
        final(out)@ == old(out)@ + attrs_markup(crate::tree::attrs_view(attrs@), i as int),
    decreases attrs@.len() - i,
{
    proof {
        reveal_strlit("=\"");
        reveal_strlit("\"");
        reveal_strlit(" ");
    }
    if i < attrs.len() {
        out.append(attrs[i].0.as_str());
        out.append("=\"");
        out.append(attrs[i].1.as_str());
        out.append("\"");
        if i + 1 < attrs.len() {
            out.append(" ");
        }
        append_attrs(attrs, i + 1, out);
        proof {
            assert(crate::tree::attrs_view(attrs@)[i as int] == (
                attrs@[i as int].0@,
                attrs@[i as int].1@,
            ));
            assert(out@ =~= old(out)@ + attrs_markup(
                crate::tree::attrs_view(attrs@),
                i as int,
            ));
        }
    } else {
        proof {
            assert(out@ =~= out@ + attrs_markup(crate::tree::attrs_view(attrs@), i as int));
        }
    }
}

/// Appends the concatenated markup of the children from index `i` on.
fn append_children(children: &Vec<ElementType>, i: usize, out: &mut String)
    ensures
        final(out)@ == old(out)@ + children_markup(child_views(children@), i as int),
    decreases *children, 1int, children@.len() - i,
{
    broadcast use lemma_child_views;

    if i < children.len() {
        let piece = virtual_dom_to_html(&children[i]);
        out.append(piece.as_str());
        append_children(children, i + 1, out);
        proof {
            assert(child_views(children@)[i as int] == node_view(children@[i as int]));
            assert(out@ =~= old(out)@ + children_markup(
                child_views(children@),
                i as int,
            ));
        }
    } else {
        proof {
            assert(out@ =~= out@ + children_markup(child_views(children@), i as int));
        }
    }
}

/// Renders a node to markup text.
pub fn virtual_dom_to_html(node: &ElementType) -> (r: String)
    ensures
        r@ == render_spec(node_view(*node)),
    decreases *node, 0int, 0int,
{
    match node {
        ElementType::Text(text) => text.clone(),
        ElementType::Element(tag, attrs, children) => {
            proof {
                reveal_strlit("<");
                reveal_strlit(" ");
                reveal_strlit(">");
                reveal_strlit("</");
            }
            let mut out = String::new();
            out.append("<");
            out.append(tag.as_str());
            out.append(" ");
            append_attrs(attrs, 0, &mut out);
            out.append(">");
            append_children(children, 0, &mut out);
            out.append("</");
            out.append(tag.as_str());
            out.append(">");
            proof {
                assert(out@ =~= render_spec(node_view(*node)));
            }
            out
        },
    }
}

} // verus!
