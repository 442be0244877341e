//! Which parts of a document need the anchorizer: those that hold a
//! heading. The others can be interpreted with any anchorizer, and so side
//! by side.

use crate::color::Theme;
use crate::interpreter::attributes::get_node;
use crate::interpreter::hir::{arena_wf, HirNode, HirNodeView, TextOrHirNode, TextOrHirNodeView};
use crate::interpreter::html::TagName;
use crate::interpreter::model::{
    closed, flow_content, flow_list, flow_list_item, flow_list_items, flow_node, flow_unit,
    headings_content, headings_list_items, headings_node, inner_state, is_passed_over,
    item_opened, list_start, opened, Flow,
};
use crate::interpreter::state::StateView;
use vstd::prelude::*;

verus! {

/// Tells whether a heading is processed when node `index` is.
pub fn holds_heading(input: &[HirNode], index: usize) -> (b: bool)
    requires
        arena_wf(input.deep_view()),
        index < input.len(),
    ensures
        b == (headings_node(input.deep_view(), index as int) > 0),
    decreases input.len() - index, 1int,
{
    match get_node(input, index).tag {
        TagName::OrderedList | TagName::UnorderedList => items_hold_heading(input, index),
        TagName::Header(_) => true,
        TagName::Table
        | TagName::Details
        | TagName::Summary
        | TagName::Section
        | TagName::Picture
        | TagName::Source
        | TagName::Image
        | TagName::ListItem
        | TagName::TableHead
        | TagName::TableBody
        | TagName::TableRow
        | TagName::TableDataCell
        | TagName::TableHeader
        | TagName::Root => false,
        _ => content_holds_heading(input, index),
    }
}

/// Tells whether a heading is processed when the content of node `owner` is.
fn content_holds_heading(input: &[HirNode], owner: usize) -> (b: bool)
    requires
        arena_wf(input.deep_view()),
        owner < input.len(),
    ensures
        b == (headings_content(input.deep_view(), owner as int, 0) > 0),
    decreases input.len() - owner, 0int,
{
    let ghost nodes = input.deep_view();
    let node = get_node(input, owner);
    let mut i: usize = 0;
    while i < node.content.len()
        invariant
            i <= node.content.len(),
            owner < input.len(),
            nodes == input.deep_view(),
            arena_wf(nodes),
            node@ == nodes[owner as int],
            (headings_content(nodes, owner as int, 0) > 0) == (headings_content(
                nodes,
                owner as int,
                i as int,
            ) > 0),
        decreases node.content.len() - i,
    {
        if let TextOrHirNode::Hir(child) = &node.content[i] {
            assert(nodes[owner as int].content[i as int] == TextOrHirNodeView::Hir(*child));
            if holds_heading(input, *child) {
                return true;
            }
        } else {
            assert(nodes[owner as int].content[i as int] is Text);
        }
        i += 1;
    }
    false
}

/// Tells whether a heading is processed when the items of the list at node
/// `owner` are.
fn items_hold_heading(input: &[HirNode], owner: usize) -> (b: bool)
    requires
        arena_wf(input.deep_view()),
        owner < input.len(),
    ensures
        b == (headings_list_items(input.deep_view(), owner as int, 0) > 0),
    decreases input.len() - owner, 0int,
{
    let ghost nodes = input.deep_view();
    let node = get_node(input, owner);
    let mut i: usize = 0;
    while i < node.content.len()
        invariant
            i <= node.content.len(),
            owner < input.len(),
            nodes == input.deep_view(),
            arena_wf(nodes),
            node@ == nodes[owner as int],
            (headings_list_items(nodes, owner as int, 0) > 0) == (headings_list_items(
                nodes,
                owner as int,
                i as int,
            ) > 0),
        decreases node.content.len() - i,
    {
        if let TextOrHirNode::Hir(child) = &node.content[i] {
            assert(nodes[owner as int].content[i as int] == TextOrHirNodeView::Hir(*child));
            if let TagName::ListItem = get_node(input, *child).tag {
                if content_holds_heading(input, *child) {
                    return true;
                }
            }
        } else {
            assert(nodes[owner as int].content[i as int] is Text);
        }
        i += 1;
    }
    false
}

/// Whether two flows have the same output and the same current box: they
/// may differ in what the anchorizer has handed out.
pub open spec fn alike(a: Flow, b: Flow) -> bool {
    a.output == b.output && a.text_box == b.text_box
}

/// A node that holds no heading is processed alike whatever the anchorizer
/// has handed out, and nothing is handed out meanwhile.
pub proof fn lemma_node_without_heading(
    nodes: Seq<HirNodeView>,
    theme: Theme,
    index: int,
    st: StateView,
    a: Flow,
    b: Flow,
)
    requires
        alike(a, b),
        headings_node(nodes, index) == 0,
    ensures
        alike(flow_node(nodes, theme, index, st, a), flow_node(nodes, theme, index, st, b)),
        flow_node(nodes, theme, index, st, a).taken == a.taken,
    decreases nodes.len() - index, 2int,
{
    let after_a = flow_node(nodes, theme, index, st, a);
    let after_b = flow_node(nodes, theme, index, st, b);
    if 0 <= index < nodes.len() {
        let node = nodes[index];
        if node.tag == TagName::OrderedList || node.tag == TagName::UnorderedList {
            let first = if node.tag == TagName::OrderedList {
                Some(list_start(node.attributes, 0, 1))
            } else {
                None
            };
            lemma_list_without_heading(nodes, theme, index, first, st, a, b);
            assert(after_a == flow_list(nodes, theme, index, first, st, a) && after_b == flow_list(
                nodes,
                theme,
                index,
                first,
                st,
                b,
            )) by {
                reveal(flow_node);
                reveal(flow_list);
            }
        } else if node.tag == TagName::Table || is_passed_over(node.tag) {
            assert(alike(after_a, after_b) && after_a.taken == a.taken) by {
                reveal(flow_node);
            }
        } else {
            let inner = inner_state(node, st);
            let filled_a = flow_content(nodes, theme, index, 0, inner, opened(node, st, a));
            let filled_b = flow_content(nodes, theme, index, 0, inner, opened(node, st, b));
            lemma_content_without_heading(
                nodes,
                theme,
                index,
                0,
                inner,
                opened(node, st, a),
                opened(node, st, b),
            );
            assert(after_a == closed(node, inner, filled_a) && after_b == closed(
                node,
                inner,
                filled_b,
            )) by {
                reveal(flow_node);
                reveal(flow_content);
            }
        }
    } else {
        assert(after_a == a && after_b == b) by {
            reveal(flow_node);
        }
    }
}

/// Content that holds no heading is processed alike whatever the
/// anchorizer has handed out, and nothing is handed out meanwhile.
pub proof fn lemma_content_without_heading(
    nodes: Seq<HirNodeView>,
    theme: Theme,
    owner: int,
    i: int,
    st: StateView,
    a: Flow,
    b: Flow,
)
    requires
        alike(a, b),
        headings_content(nodes, owner, i) == 0,
    ensures
        alike(
            flow_content(nodes, theme, owner, i, st, a),
            flow_content(nodes, theme, owner, i, st, b),
        ),
        flow_content(nodes, theme, owner, i, st, a).taken == a.taken,
    decreases nodes.len() - owner, 1int, nodes[owner].content.len() - i,
{
    let after_a = flow_content(nodes, theme, owner, i, st, a);
    let after_b = flow_content(nodes, theme, owner, i, st, b);
    if 0 <= owner < nodes.len() && 0 <= i < nodes[owner].content.len() {
        let is_node = nodes[owner].content[i] matches TextOrHirNodeView::Hir(c) && owner < c
            < nodes.len();
        let next_a = match nodes[owner].content[i] {
            TextOrHirNodeView::Text(s) => a.text(s, theme, st),
            TextOrHirNodeView::Hir(c) => if owner < c < nodes.len() {
                flow_node(nodes, theme, c as int, st, a)
            } else {
                a
            },
        };
        let next_b = match nodes[owner].content[i] {
            TextOrHirNodeView::Text(s) => b.text(s, theme, st),
            TextOrHirNodeView::Hir(c) => if owner < c < nodes.len() {
                flow_node(nodes, theme, c as int, st, b)
            } else {
                b
            },
        };
        if is_node {
            lemma_node_without_heading(
                nodes,
                theme,
                nodes[owner].content[i]->Hir_0 as int,
                st,
                a,
                b,
            );
        }
        lemma_content_without_heading(nodes, theme, owner, i + 1, st, next_a, next_b);
        assert(after_a == flow_content(nodes, theme, owner, i + 1, st, next_a) && after_b
            == flow_content(nodes, theme, owner, i + 1, st, next_b)) by {
            reveal(flow_content);
            reveal(flow_node);
        }
    } else {
        assert(after_a == a && after_b == b) by {
            reveal(flow_content);
        }
    }
}

/// A list that holds no heading is processed alike whatever the anchorizer
/// has handed out, and nothing is handed out meanwhile.
pub proof fn lemma_list_without_heading(
    nodes: Seq<HirNodeView>,
    theme: Theme,
    index: int,
    first: Option<nat>,
    st: StateView,
    a: Flow,
    b: Flow,
)
    requires
        alike(a, b),
        headings_list_items(nodes, index, 0) == 0,
    ensures
        alike(
            flow_list(nodes, theme, index, first, st, a),
            flow_list(nodes, theme, index, first, st, b),
        ),
        flow_list(nodes, theme, index, first, st, a).taken == a.taken,
    decreases nodes.len() - index, 1int,
{
    let after_a = flow_list(nodes, theme, index, first, st, a);
    let after_b = flow_list(nodes, theme, index, first, st, b);
    if 0 <= index < nodes.len() {
        let inner = st.indented();
        let filled_a = flow_list_items(nodes, theme, index, 0, first, inner, a.flush(st));
        let filled_b = flow_list_items(nodes, theme, index, 0, first, inner, b.flush(st));
        lemma_list_items_without_heading(
            nodes,
            theme,
            index,
            0,
            first,
            inner,
            a.flush(st),
            b.flush(st),
        );
        assert(alike(after_a, after_b) && after_a.taken == filled_a.taken) by {
            reveal(flow_list);
            reveal(flow_list_items);
        }
    } else {
        assert(after_a == a && after_b == b) by {
            reveal(flow_list);
        }
    }
}

/// List items that hold no heading are processed alike whatever the
/// anchorizer has handed out, and nothing is handed out meanwhile.
pub proof fn lemma_list_items_without_heading(
    nodes: Seq<HirNodeView>,
    theme: Theme,
    owner: int,
    i: int,
    number: Option<nat>,
    st: StateView,
    a: Flow,
    b: Flow,
)
    requires
        alike(a, b),
        headings_list_items(nodes, owner, i) == 0,
    ensures
        alike(
            flow_list_items(nodes, theme, owner, i, number, st, a),
            flow_list_items(nodes, theme, owner, i, number, st, b),
        ),
        flow_list_items(nodes, theme, owner, i, number, st, a).taken == a.taken,
    decreases nodes.len() - owner, 0int, nodes[owner].content.len() - i,
{
    let after_a = flow_list_items(nodes, theme, owner, i, number, st, a);
    let after_b = flow_list_items(nodes, theme, owner, i, number, st, b);
    if 0 <= owner < nodes.len() && 0 <= i < nodes[owner].content.len() {
        let is_item = nodes[owner].content[i] matches TextOrHirNodeView::Hir(c) && owner < c
            < nodes.len() && nodes[c as int].tag == TagName::ListItem;
        let c = nodes[owner].content[i]->Hir_0 as int;
        let next_a = if is_item {
            flow_list_item(nodes, theme, c, number, st, a)
        } else {
            a
        };
        let next_b = if is_item {
            flow_list_item(nodes, theme, c, number, st, b)
        } else {
            b
        };
        let next_number: Option<nat> = if is_item {
            match number {
                Some(n) => Some((n + 1) as nat),
                None => None,
            }
        } else {
            number
        };
        if is_item {
            lemma_list_item_without_heading(nodes, theme, c, number, st, a, b);
        }
        lemma_list_items_without_heading(
            nodes,
            theme,
            owner,
            i + 1,
            next_number,
            st,
            next_a,
            next_b,
        );
        assert(after_a == flow_list_items(nodes, theme, owner, i + 1, next_number, st, next_a)
            && after_b == flow_list_items(nodes, theme, owner, i + 1, next_number, st, next_b))
            by {
            reveal(flow_list_items);
            reveal(flow_list_item);
        }
    } else {
        assert(after_a == a && after_b == b) by {
            reveal(flow_list_items);
        }
    }
}

/// A list item that holds no heading is processed alike whatever the
/// anchorizer has handed out, and nothing is handed out meanwhile.
pub proof fn lemma_list_item_without_heading(
    nodes: Seq<HirNodeView>,
    theme: Theme,
    index: int,
    number: Option<nat>,
    st: StateView,
    a: Flow,
    b: Flow,
)
    requires
        alike(a, b),
        headings_content(nodes, index, 0) == 0,
    ensures
        alike(
            flow_list_item(nodes, theme, index, number, st, a),
            flow_list_item(nodes, theme, index, number, st, b),
        ),
        flow_list_item(nodes, theme, index, number, st, a).taken == a.taken,
    decreases nodes.len() - index, 2int,
{
    let after_a = flow_list_item(nodes, theme, index, number, st, a);
    let after_b = flow_list_item(nodes, theme, index, number, st, b);
    if 0 <= index < nodes.len() {
        let open_a = item_opened(nodes, theme, index, number, a);
        let open_b = item_opened(nodes, theme, index, number, b);
        lemma_content_without_heading(nodes, theme, index, 0, st, open_a, open_b);
        assert(after_a == flow_content(nodes, theme, index, 0, st, open_a).flush(st) && after_b
            == flow_content(nodes, theme, index, 0, st, open_b).flush(st)) by {
            reveal(flow_list_item);
            reveal(flow_content);
        }
    } else {
        assert(after_a == a && after_b == b) by {
            reveal(flow_list_item);
        }
    }
}

/// A top-level element that holds no heading gives the same output
/// whatever the anchorizer has handed out, and leaves the anchorizer as it
/// was: such elements can be interpreted side by side, each with an
/// anchorizer of its own.
pub proof fn lemma_unit_without_heading(
    nodes: Seq<HirNodeView>,
    theme: Theme,
    index: int,
    taken: Set<Seq<char>>,
    other: Set<Seq<char>>,
)
    requires
        headings_node(nodes, index) == 0,
    ensures
        flow_unit(nodes, theme, index, taken).output == flow_unit(
            nodes,
            theme,
            index,
            other,
        ).output,
        flow_unit(nodes, theme, index, taken).taken == taken,
{
    lemma_node_without_heading(
        nodes,
        theme,
        index,
        StateView::with_span_color(theme.code_color),
        Flow::start(taken),
        Flow::start(other),
    );
}

} // verus!
