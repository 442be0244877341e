//! The names that the headings of a document are given, and how they add up
//! to what the anchorizer has handed out.

use crate::color::Theme;
use crate::interpreter::hir::{HirNodeView, TextOrHirNodeView};
use crate::interpreter::html::TagName;
use crate::interpreter::model::{
    closed, flow_content, flow_document, flow_list, flow_list_item, flow_list_items, flow_node,
    flow_unit, heading_name, headings_content, headings_document, headings_list_items,
    headings_node, inner_state, is_passed_over, item_opened, list_start, made_up, opened, Flow,
};
use crate::interpreter::state::StateView;
use vstd::prelude::*;

verus! {

/// The names that the headings get which are processed when node `index`
/// is, in the order in which they are closed.
#[verifier::opaque]
pub open spec fn names_node(
    nodes: Seq<HirNodeView>,
    theme: Theme,
    index: int,
    st: StateView,
    flow: Flow,
) -> Seq<Seq<char>>
    decreases nodes.len() - index, nodes[index].content.len() + 2,
{
    if 0 <= index < nodes.len() {
        let node = nodes[index];
        match node.tag {
            TagName::OrderedList => names_list(
                nodes,
                theme,
                index,
                Some(list_start(node.attributes, 0, 1)),
                st,
                flow,
            ),
            TagName::UnorderedList => names_list(nodes, theme, index, None, st, flow),
            TagName::Table => Seq::empty(),
            _ => if is_passed_over(node.tag) {
                Seq::empty()
            } else {
                let inner = inner_state(node, st);
                let open = opened(node, st, flow);
                let within = names_content(nodes, theme, index, 0, inner, open);
                if node.tag is Header {
                    within.push(heading_name(flow_content(nodes, theme, index, 0, inner, open)))
                } else {
                    within
                }
            },
        }
    } else {
        Seq::empty()
    }
}

/// The names that the headings get which are processed when the content of
/// node `owner` is, from its item `i` on.
#[verifier::opaque]
pub open spec fn names_content(
    nodes: Seq<HirNodeView>,
    theme: Theme,
    owner: int,
    i: int,
    st: StateView,
    flow: Flow,
) -> Seq<Seq<char>>
    decreases nodes.len() - owner, nodes[owner].content.len() - i,
{
    if 0 <= owner < nodes.len() && 0 <= i < nodes[owner].content.len() {
        match nodes[owner].content[i] {
            TextOrHirNodeView::Text(s) => names_content(
                nodes,
                theme,
                owner,
                i + 1,
                st,
                flow.text(s, theme, st),
            ),
            TextOrHirNodeView::Hir(c) => if owner < c < nodes.len() {
                names_node(nodes, theme, c as int, st, flow) + names_content(
                    nodes,
                    theme,
                    owner,
                    i + 1,
                    st,
                    flow_node(nodes, theme, c as int, st, flow),
                )
            } else {
                names_content(nodes, theme, owner, i + 1, st, flow)
            },
        }
    } else {
        Seq::empty()
    }
}

/// The names that the headings get which are processed when the list at
/// node `index` is.
#[verifier::opaque]
pub open spec fn names_list(
    nodes: Seq<HirNodeView>,
    theme: Theme,
    index: int,
    first: Option<nat>,
    st: StateView,
    flow: Flow,
) -> Seq<Seq<char>>
    decreases nodes.len() - index, nodes[index].content.len() + 1,
{
    if 0 <= index < nodes.len() {
        names_list_items(nodes, theme, index, 0, first, st.indented(), flow.flush(st))
    } else {
        Seq::empty()
    }
}

/// The names that the headings get which are processed when the items of
/// the list at node `owner` are, from its content item `i` on.
#[verifier::opaque]
pub open spec fn names_list_items(
    nodes: Seq<HirNodeView>,
    theme: Theme,
    owner: int,
    i: int,
    number: Option<nat>,
    st: StateView,
    flow: Flow,
) -> Seq<Seq<char>>
    decreases nodes.len() - owner, nodes[owner].content.len() - i,
{
    if 0 <= owner < nodes.len() && 0 <= i < nodes[owner].content.len() {
        match nodes[owner].content[i] {
            TextOrHirNodeView::Hir(c) => if owner < c < nodes.len() && nodes[c as int].tag
                == TagName::ListItem {
                names_list_item(nodes, theme, c as int, number, st, flow) + names_list_items(
                    nodes,
                    theme,
                    owner,
                    i + 1,
                    match number {
                        Some(n) => Some(n + 1),
                        None => None,
                    },
                    st,
                    flow_list_item(nodes, theme, c as int, number, st, flow),
                )
            } else {
                names_list_items(nodes, theme, owner, i + 1, number, st, flow)
            },
            TextOrHirNodeView::Text(_) => names_list_items(
                nodes,
                theme,
                owner,
                i + 1,
                number,
                st,
                flow,
            ),
        }
    } else {
        Seq::empty()
    }
}

/// The names that the headings get which are processed when the list item
/// at node `index` is.
#[verifier::opaque]
pub open spec fn names_list_item(
    nodes: Seq<HirNodeView>,
    theme: Theme,
    index: int,
    number: Option<nat>,
    st: StateView,
    flow: Flow,
) -> Seq<Seq<char>>
    decreases nodes.len() - index, nodes[index].content.len() + 1,
{
    if 0 <= index < nodes.len() {
        names_content(nodes, theme, index, 0, st, item_opened(nodes, theme, index, number, flow))
    } else {
        Seq::empty()
    }
}

/// The names that the headings of a document get, from the root's content
/// item `i` on, in document order.
pub open spec fn names_document(
    nodes: Seq<HirNodeView>,
    theme: Theme,
    i: int,
    flow: Flow,
) -> Seq<Seq<char>>
    decreases nodes[0].content.len() - i,
{
    if 0 < nodes.len() && 0 <= i < nodes[0].content.len() {
        match nodes[0].content[i] {
            TextOrHirNodeView::Hir(c) => if c < nodes.len() {
                let unit = flow_unit(nodes, theme, c as int, flow.taken);
                names_node(
                    nodes,
                    theme,
                    c as int,
                    StateView::with_span_color(theme.code_color),
                    Flow::start(flow.taken),
                ) + names_document(
                    nodes,
                    theme,
                    i + 1,
                    Flow { output: flow.output + unit.output, taken: unit.taken, ..flow },
                )
            } else {
                names_document(nodes, theme, i + 1, flow)
            },
            TextOrHirNodeView::Text(_) => names_document(nodes, theme, i + 1, flow),
        }
    } else {
        Seq::empty()
    }
}

/// No names make up nothing more.
pub proof fn lemma_made_up_of_none(taken: Set<Seq<char>>)
    ensures
        made_up(Seq::empty(), taken, taken),
{
}

/// What two stretches of names make up one after the other, the two
/// stretches make up together.
pub proof fn lemma_made_up_then(
    first: Seq<Seq<char>>,
    second: Seq<Seq<char>>,
    before: Set<Seq<char>>,
    between: Set<Seq<char>>,
    after: Set<Seq<char>>,
)
    requires
        made_up(first, before, between),
        made_up(second, between, after),
    ensures
        made_up(first + second, before, after),
{
    let names = first + second;
    assert forall|name: Seq<char>|
        after.contains(name) <==> before.contains(name) || names.contains(name) by {
        if first.contains(name) {
            let i = choose|i: int| 0 <= i < first.len() && first[i] == name;
            assert(names[i] == name);
        }
        if second.contains(name) {
            let i = choose|i: int| 0 <= i < second.len() && second[i] == name;
            assert(names[i + first.len()] == name);
        }
        if names.contains(name) {
            let i = choose|i: int| 0 <= i < names.len() && names[i] == name;
            if i < first.len() {
                assert(first[i] == name);
            } else {
                assert(second[i - first.len()] == name);
            }
        }
    }
}

/// One more name makes up one more anchor.
pub proof fn lemma_made_up_with(
    names: Seq<Seq<char>>,
    name: Seq<char>,
    before: Set<Seq<char>>,
    between: Set<Seq<char>>,
)
    requires
        made_up(names, before, between),
    ensures
        made_up(names.push(name), before, between.insert(name)),
{
    let one = seq![name];
    assert(one[0] == name);
    assert forall|other: Seq<char>|
        between.insert(name).contains(other) <==> between.contains(other) || one.contains(
            other,
        ) by {
        if one.contains(other) {
            let i = choose|i: int| 0 <= i < one.len() && one[i] == other;
        }
    }
    lemma_made_up_then(names, one, before, between, between.insert(name));
    assert(names + one =~= names.push(name));
}

/// As many names as headings are given when a node is processed, and they
/// are what the anchorizer hands out meanwhile.
pub proof fn lemma_names_node(
    nodes: Seq<HirNodeView>,
    theme: Theme,
    index: int,
    st: StateView,
    flow: Flow,
)
    ensures
        names_node(nodes, theme, index, st, flow).len() == headings_node(nodes, index),
        made_up(
            names_node(nodes, theme, index, st, flow),
            flow.taken,
            flow_node(nodes, theme, index, st, flow).taken,
        ),
    decreases nodes.len() - index, 2int,
{
    let names = names_node(nodes, theme, index, st, flow);
    let after = flow_node(nodes, theme, index, st, flow);
    if 0 <= index < nodes.len() {
        let node = nodes[index];
        if node.tag == TagName::OrderedList || node.tag == TagName::UnorderedList {
            let first = if node.tag == TagName::OrderedList {
                Some(list_start(node.attributes, 0, 1))
            } else {
                None
            };
            lemma_names_list(nodes, theme, index, first, st, flow);
            assert(after == flow_list(nodes, theme, index, first, st, flow)) by {
                reveal(flow_node);
                reveal(flow_list);
            }
            assert(names == names_list(nodes, theme, index, first, st, flow)) by {
                reveal(names_node);
                reveal(names_list);
            }
        } else if node.tag == TagName::Table || is_passed_over(node.tag) {
            assert(after.taken == flow.taken) by {
                reveal(flow_node);
            }
            assert(names == Seq::<Seq<char>>::empty()) by {
                reveal(names_node);
            }
        } else {
            let inner = inner_state(node, st);
            let open = opened(node, st, flow);
            let filled = flow_content(nodes, theme, index, 0, inner, open);
            let within = names_content(nodes, theme, index, 0, inner, open);
            lemma_names_content(nodes, theme, index, 0, inner, open);
            assert(after == closed(node, inner, filled)) by {
                reveal(flow_node);
                reveal(flow_content);
            }
            assert(names == if node.tag is Header {
                within.push(heading_name(filled))
            } else {
                within
            }) by {
                reveal(names_node);
                reveal(names_content);
                reveal(flow_content);
            }
            if node.tag is Header {
                lemma_made_up_with(within, heading_name(filled), flow.taken, filled.taken);
            }
        }
    } else {
        assert(after == flow) by {
            reveal(flow_node);
        }
        assert(names == Seq::<Seq<char>>::empty()) by {
            reveal(names_node);
        }
    }
}

/// As many names as headings are given when the content of a node is
/// processed, and they are what the anchorizer hands out meanwhile.
pub proof fn lemma_names_content(
    nodes: Seq<HirNodeView>,
    theme: Theme,
    owner: int,
    i: int,
    st: StateView,
    flow: Flow,
)
    ensures
        names_content(nodes, theme, owner, i, st, flow).len() == headings_content(
            nodes,
            owner,
            i,
        ),
        made_up(
            names_content(nodes, theme, owner, i, st, flow),
            flow.taken,
            flow_content(nodes, theme, owner, i, st, flow).taken,
        ),
    decreases nodes.len() - owner, 1int, nodes[owner].content.len() - i,
{
    let names = names_content(nodes, theme, owner, i, st, flow);
    let after = flow_content(nodes, theme, owner, i, st, flow);
    if 0 <= owner < nodes.len() && 0 <= i < nodes[owner].content.len() {
        let is_node = nodes[owner].content[i] matches TextOrHirNodeView::Hir(c) && owner < c
            < nodes.len();
        let next = match nodes[owner].content[i] {
            TextOrHirNodeView::Text(s) => flow.text(s, theme, st),
            TextOrHirNodeView::Hir(c) => if owner < c < nodes.len() {
                flow_node(nodes, theme, c as int, st, flow)
            } else {
                flow
            },
        };
        let first = if is_node {
            let c = nodes[owner].content[i]->Hir_0 as int;
            lemma_names_node(nodes, theme, c, st, flow);
            names_node(nodes, theme, c, st, flow)
        } else {
            Seq::empty()
        };
        let rest = names_content(nodes, theme, owner, i + 1, st, next);
        lemma_names_content(nodes, theme, owner, i + 1, st, next);
        assert(after == flow_content(nodes, theme, owner, i + 1, st, next)) by {
            reveal(flow_content);
            reveal(flow_node);
        }
        assert(names =~= first + rest) by {
            reveal(names_content);
            reveal(names_node);
        }
        lemma_made_up_then(first, rest, flow.taken, next.taken, after.taken);
    } else {
        assert(after == flow) by {
            reveal(flow_content);
        }
        assert(names == Seq::<Seq<char>>::empty()) by {
            reveal(names_content);
        }
    }
}

/// As many names as headings are given when a list is processed, and they
/// are what the anchorizer hands out meanwhile.
pub proof fn lemma_names_list(
    nodes: Seq<HirNodeView>,
    theme: Theme,
    index: int,
    first: Option<nat>,
    st: StateView,
    flow: Flow,
)
    ensures
        names_list(nodes, theme, index, first, st, flow).len() == headings_list_items(
            nodes,
            index,
            0,
        ),
        made_up(
            names_list(nodes, theme, index, first, st, flow),
            flow.taken,
            flow_list(nodes, theme, index, first, st, flow).taken,
        ),
    decreases nodes.len() - index, 1int,
{
    let names = names_list(nodes, theme, index, first, st, flow);
    let after = flow_list(nodes, theme, index, first, st, flow);
    if 0 <= index < nodes.len() {
        let inner = st.indented();
        let open = flow.flush(st);
        let filled = flow_list_items(nodes, theme, index, 0, first, inner, open);
        lemma_names_list_items(nodes, theme, index, 0, first, inner, open);
        assert(after.taken == filled.taken) by {
            reveal(flow_list);
            reveal(flow_list_items);
        }
        assert(names == names_list_items(nodes, theme, index, 0, first, inner, open)) by {
            reveal(names_list);
            reveal(names_list_items);
        }
    } else {
        assert(after == flow) by {
            reveal(flow_list);
        }
        assert(names == Seq::<Seq<char>>::empty()) by {
            reveal(names_list);
        }
    }
}

/// As many names as headings are given when the items of a list are
/// processed, and they are what the anchorizer hands out meanwhile.
pub proof fn lemma_names_list_items(
    nodes: Seq<HirNodeView>,
    theme: Theme,
    owner: int,
    i: int,
    number: Option<nat>,
    st: StateView,
    flow: Flow,
)
    ensures
        names_list_items(nodes, theme, owner, i, number, st, flow).len() == headings_list_items(
            nodes,
            owner,
            i,
        ),
        made_up(
            names_list_items(nodes, theme, owner, i, number, st, flow),
            flow.taken,
            flow_list_items(nodes, theme, owner, i, number, st, flow).taken,
        ),
    decreases nodes.len() - owner, 0int, nodes[owner].content.len() - i,
{
    let names = names_list_items(nodes, theme, owner, i, number, st, flow);
    let after = flow_list_items(nodes, theme, owner, i, number, st, flow);
    if 0 <= owner < nodes.len() && 0 <= i < nodes[owner].content.len() {
        let is_item = nodes[owner].content[i] matches TextOrHirNodeView::Hir(c) && owner < c
            < nodes.len() && nodes[c as int].tag == TagName::ListItem;
        let next = if is_item {
            flow_list_item(nodes, theme, nodes[owner].content[i]->Hir_0 as int, number, st, flow)
        } else {
            flow
        };
        let first = if is_item {
            let c = nodes[owner].content[i]->Hir_0 as int;
            lemma_names_list_item(nodes, theme, c, number, st, flow);
            names_list_item(nodes, theme, c, number, st, flow)
        } else {
            Seq::empty()
        };
        let next_number: Option<nat> = if is_item {
            match number {
                Some(n) => Some((n + 1) as nat),
                None => None,
            }
        } else {
            number
        };
        let rest = names_list_items(nodes, theme, owner, i + 1, next_number, st, next);
        lemma_names_list_items(nodes, theme, owner, i + 1, next_number, st, next);
        assert(after == flow_list_items(nodes, theme, owner, i + 1, next_number, st, next)) by {
            reveal(flow_list_items);
            reveal(flow_list_item);
        }
        assert(names =~= first + rest) by {
            reveal(names_list_items);
            reveal(names_list_item);
        }
        lemma_made_up_then(first, rest, flow.taken, next.taken, after.taken);
    } else {
        assert(after == flow) by {
            reveal(flow_list_items);
        }
        assert(names == Seq::<Seq<char>>::empty()) by {
            reveal(names_list_items);
        }
    }
}

/// As many names as headings are given when a list item is processed, and
/// they are what the anchorizer hands out meanwhile.
pub proof fn lemma_names_list_item(
    nodes: Seq<HirNodeView>,
    theme: Theme,
    index: int,
    number: Option<nat>,
    st: StateView,
    flow: Flow,
)
    ensures
        names_list_item(nodes, theme, index, number, st, flow).len() == headings_content(
            nodes,
            index,
            0,
        ),
        made_up(
            names_list_item(nodes, theme, index, number, st, flow),
            flow.taken,
            flow_list_item(nodes, theme, index, number, st, flow).taken,
        ),
    decreases nodes.len() - index, 2int,
{
    let names = names_list_item(nodes, theme, index, number, st, flow);
    let after = flow_list_item(nodes, theme, index, number, st, flow);
    if 0 <= index < nodes.len() {
        let open = item_opened(nodes, theme, index, number, flow);
        let filled = flow_content(nodes, theme, index, 0, st, open);
        lemma_names_content(nodes, theme, index, 0, st, open);
        assert(after == filled.flush(st)) by {
            reveal(flow_list_item);
            reveal(flow_content);
        }
        assert(names == names_content(nodes, theme, index, 0, st, open)) by {
            reveal(names_list_item);
            reveal(names_content);
        }
    } else {
        assert(after == flow) by {
            reveal(flow_list_item);
        }
        assert(names == Seq::<Seq<char>>::empty()) by {
            reveal(names_list_item);
        }
    }
}

/// As many names as headings are given when a document is interpreted, and
/// they are what the anchorizer hands out meanwhile.
pub proof fn lemma_names_document(nodes: Seq<HirNodeView>, theme: Theme, i: int, flow: Flow)
    ensures
        names_document(nodes, theme, i, flow).len() == headings_document(nodes, i),
        made_up(
            names_document(nodes, theme, i, flow),
            flow.taken,
            flow_document(nodes, theme, i, flow).taken,
        ),
    decreases nodes[0].content.len() - i,
{
    if 0 < nodes.len() && 0 <= i < nodes[0].content.len() {
        match nodes[0].content[i] {
            TextOrHirNodeView::Hir(c) => {
                if c < nodes.len() {
                    let st = StateView::with_span_color(theme.code_color);
                    let unit = flow_unit(nodes, theme, c as int, flow.taken);
                    let next = Flow {
                        output: flow.output + unit.output,
                        taken: unit.taken,
                        ..flow
                    };
                    lemma_names_node(nodes, theme, c as int, st, Flow::start(flow.taken));
                    lemma_names_document(nodes, theme, i + 1, next);
                    lemma_made_up_then(
                        names_node(nodes, theme, c as int, st, Flow::start(flow.taken)),
                        names_document(nodes, theme, i + 1, next),
                        flow.taken,
                        next.taken,
                        flow_document(nodes, theme, i, flow).taken,
                    );
                } else {
                    lemma_names_document(nodes, theme, i + 1, flow);
                }
            },
            TextOrHirNodeView::Text(_) => {
                lemma_names_document(nodes, theme, i + 1, flow);
            },
        }
    }
}

} // verus!
