use virtual_dom::AppResponse;
use virtual_dom::Diff;
use virtual_dom::ElementType;
use virtual_dom::VirtualNode;
use virtual_dom::run_app;
use virtual_dom::update_dom;
use virtual_dom::update_input;
use virtual_dom::virtual_dom_to_html;

fn text(s: &str) -> ElementType {
    ElementType::Text(s.to_string())
}

fn element(tag: &str, attrs: Vec<(&str, &str)>, children: Vec<ElementType>) -> ElementType {
    ElementType::Element(
        tag.to_string(),
        attrs
            .into_iter()
            .map(|(k, v)| (k.to_string(), v.to_string()))
            .collect(),
        children,
    )
}

fn snapshot(node: ElementType) -> VirtualNode {
    VirtualNode { element_type: node }
}

#[test]
fn test_update_dom() {
    let old_dom = snapshot(element("div", vec![], vec![text("Hello")]));

    let new_dom = snapshot(element(
        "div",
        vec![],
        vec![text("World"), element("span", vec![], vec![text("!")])],
    ));

    let expected_diff = vec![
        Diff::RemoveNode(snapshot(element("div", vec![], vec![text("Hello")]))),
        Diff::AddNode(snapshot(element(
            "div",
            vec![],
            vec![text("World"), element("span", vec![], vec![text("!")])],
        ))),
    ];
    let app_response = update_dom(&old_dom, &new_dom);

    assert!(app_response.diff == expected_diff);
}

#[test]
fn test_virtual_dom_to_html() {
    let el = element(
        "div",
        vec![],
        vec![text("Hello"), element("span", vec![], vec![text("World")])],
    );

    let expected_html = r#"<div >Hello<span >World</span></div>"#;

    let generated_html = virtual_dom_to_html(&el);
    assert_eq!(generated_html, expected_html);
}

#[test]
fn compare_identical_trees_yields_no_changes() {
    let make = || {
        snapshot(element(
            "div",
            vec![("class", "outer")],
            vec![
                text("greeting"),
                element("span", vec![("id", "inner")], vec![text("world")]),
            ],
        ))
    };
    let response: AppResponse = update_dom(&make(), &make());
    assert!(response.diff.is_empty());
}

#[test]
fn identical_single_text_snapshots() {
    let old_dom = snapshot(text("Hello"));
    let new_dom = snapshot(text("Hello"));
    let response = update_dom(&old_dom, &new_dom);
    assert!(response.diff.is_empty());
    assert_eq!(response.html, "Hello");
}

#[test]
fn empty_text_is_not_reported_as_removed() {
    let old_dom = snapshot(text(""));
    let new_dom = snapshot(text("fresh"));
    let response = update_dom(&old_dom, &new_dom);
    let expected = vec![Diff::AddNode(snapshot(text("fresh")))];
    assert!(response.diff == expected);
}

#[test]
fn empty_text_is_not_reported_as_added() {
    let old_dom = snapshot(text("stale"));
    let new_dom = snapshot(text(""));
    let response = update_dom(&old_dom, &new_dom);
    let expected = vec![Diff::RemoveNode(snapshot(text("stale")))];
    assert!(response.diff == expected);
}

#[test]
fn unequal_child_counts_are_one_unit_each() {
    let old_dom = snapshot(element(
        "div",
        vec![],
        vec![text("one"), text("two"), text("three")],
    ));
    let new_dom = snapshot(element("div", vec![], vec![text("one")]));
    let response = update_dom(&old_dom, &new_dom);
    // The two extra old children are not reported individually: the unequal
    // roots are one removal unit and one addition unit.
    let expected = vec![
        Diff::RemoveNode(snapshot(element(
            "div",
            vec![],
            vec![text("one"), text("two"), text("three")],
        ))),
        Diff::AddNode(snapshot(element("div", vec![], vec![text("one")]))),
    ];
    assert!(response.diff == expected);
}

#[test]
fn removals_precede_additions() {
    let old_dom = snapshot(element("p", vec![], vec![text("a")]));
    let new_dom = snapshot(element("p", vec![], vec![text("b"), text("c")]));
    let response = update_dom(&old_dom, &new_dom);
    let mut seen_addition = false;
    for change in &response.diff {
        match change {
            Diff::AddNode(_) => {
                seen_addition = true;
            }
            Diff::RemoveNode(_) => {
                assert!(!seen_addition);
            }
        }
    }
    assert!(seen_addition);
}

#[test]
fn render_is_deterministic_on_equal_snapshots() {
    let make = || {
        element(
            "ul",
            vec![("class", "list")],
            vec![
                element("li", vec![], vec![text("first")]),
                element("li", vec![], vec![text("second")]),
            ],
        )
    };
    let first = virtual_dom_to_html(&make());
    let second = virtual_dom_to_html(&make());
    assert_eq!(first, second);
}

#[test]
fn render_joins_attributes_with_single_spaces() {
    let el = element("a", vec![("href", "x"), ("rel", "y")], vec![]);
    assert_eq!(virtual_dom_to_html(&el), r#"<a href="x" rel="y"></a>"#);
}

#[test]
fn attribute_order_does_not_affect_equality() {
    let old_dom = snapshot(element(
        "div",
        vec![("a", "1"), ("b", "2")],
        vec![text("body")],
    ));
    let new_dom = snapshot(element(
        "div",
        vec![("b", "2"), ("a", "1")],
        vec![text("body")],
    ));
    let response = update_dom(&old_dom, &new_dom);
    assert!(response.diff.is_empty());
}

#[test]
fn differing_attribute_values_make_nodes_unequal() {
    let old_dom = snapshot(element("div", vec![("a", "1")], vec![]));
    let new_dom = snapshot(element("div", vec![("a", "2")], vec![]));
    let response = update_dom(&old_dom, &new_dom);
    assert_eq!(response.diff.len(), 2);
    assert!(matches!(response.diff[0], Diff::RemoveNode(_)));
    assert!(matches!(response.diff[1], Diff::AddNode(_)));
}

#[test]
fn run_app_reports_whole_tree_swap() {
    let response = run_app("typed");
    let expected_old = snapshot(element(
        "div",
        vec![],
        vec![text("typed"), element("input", vec![("id", "myInput")], vec![])],
    ));
    let expected_new = snapshot(element("div", vec![], vec![text("typed")]));
    let expected = vec![Diff::RemoveNode(expected_old), Diff::AddNode(expected_new)];
    assert!(response.diff == expected);
    assert_eq!(response.html, "<div >typed</div>");
}

#[test]
fn update_input_with_text() {
    let response = update_input("hi".to_string());
    let expected = vec![
        Diff::RemoveNode(snapshot(element("div", vec![], vec![text("")]))),
        Diff::AddNode(snapshot(element("div", vec![], vec![text("hi")]))),
    ];
    assert!(response.diff == expected);
    assert_eq!(response.html, "<div >hi</div>");
}

#[test]
fn update_input_with_empty_text() {
    let response = update_input(String::new());
    let expected = vec![
        Diff::RemoveNode(snapshot(element("div", vec![], vec![text("")]))),
        Diff::AddNode(snapshot(element("div", vec![], vec![]))),
    ];
    assert!(response.diff == expected);
    assert_eq!(response.html, "<div ></div>");
}
