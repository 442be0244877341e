//! The list walkers.

use crate::anchor::issued;
use crate::chars::decimal_string;
use crate::element::Element;
use crate::interpreter::ast::AstOpts;
use crate::interpreter::attributes::{get_node, list_start_of, starts_with_checkbox};
use crate::interpreter::compose::{push_spacer, push_text_box};
use crate::interpreter::flow::FlowProcess;
use crate::interpreter::hir::{arena_wf, HirNode, TextOrHirNode, TextOrHirNodeView};
use crate::interpreter::html::TagName;
use crate::interpreter::model::{
    flow_list, flow_list_item, flow_list_items, flow_of, handed_out, has_room,
    headings_content, headings_list_items, lemma_handed_out_none, lemma_handed_out_then,
    list_start,
};
use crate::interpreter::state::InheritedState;
use crate::text::{Text, TextBox};
use vstd::prelude::*;
use vstd::string::*;

verus! {

/// The number of a list item as the model counts it.
pub open spec fn item_number(number: Option<u128>) -> Option<nat> {
    match number {
        Some(n) => Some(n as nat),
        None => None,
    }
}

/// Processes the items of the list at node `index`, under the state `inner`
/// that the list hands down. `first` is the number of the first item of an
/// ordered list; each list item takes the current number and hands on the
/// next. Content of the list that is not a list item is passed over.
fn process_items(
    input: &[HirNode],
    output: &mut Vec<Element>,
    opts: &mut AstOpts,
    context: &mut TextBox,
    index: usize,
    first: Option<u128>,
    inner: &InheritedState,
)
    requires
        arena_wf(input.deep_view()),
        index < input.len(),
        has_room(input.len() as nat, (index + 1) as nat, *inner),
        first matches Some(n) ==> n <= usize::MAX,
    ensures
        flow_of(*final(output), *final(context), *final(opts)) == flow_list_items(
            input.deep_view(),
            old(opts).theme,
            index as int,
            0,
            item_number(first),
            inner@,
            flow_of(*old(output), *old(context), *old(opts)),
        ),
        final(opts).theme == old(opts).theme,
        handed_out(
            issued(old(opts).anchorizer),
            issued(final(opts).anchorizer),
            headings_list_items(input.deep_view(), index as int, 0),
        ),
    decreases input.len() - index, 0int,
{
    let ghost taken0 = issued(opts.anchorizer);
    let ghost nodes = input.deep_view();
    let ghost theme = opts.theme;
    let ghost flow0 = flow_of(*output, *context, *opts);
    let ghost done: nat = 0;
    proof {
        lemma_handed_out_none(taken0);
    }
    let node = get_node(input, index);
    let mut number = first;
    let mut i: usize = 0;
    while i < node.content.len()
        invariant
            i <= node.content.len(),
            index < input.len(),
            nodes == input.deep_view(),
            arena_wf(nodes),
            node@ == nodes[index as int],
            *node == input@[index as int],
            has_room(input.len() as nat, (index + 1) as nat, *inner),
            opts.theme == theme,
            handed_out(taken0, issued(opts.anchorizer), done),
            done + headings_list_items(nodes, index as int, i as int) == headings_list_items(
                nodes,
                index as int,
                0,
            ),
            number matches Some(n) ==> n <= usize::MAX + i,
            flow_list_items(
                nodes,
                theme,
                index as int,
                i as int,
                item_number(number),
                inner@,
                flow_of(*output, *context, *opts),
            ) == flow_list_items(
                nodes,
                theme,
                index as int,
                0,
                item_number(first),
                inner@,
                flow0,
            ),
        decreases node.content.len() - i,
    {
        let ghost before = flow_of(*output, *context, *opts);
        let ghost number_before = number;
        if let TextOrHirNode::Hir(child) = &node.content[i] {
            assert(nodes[index as int].content[i as int] == TextOrHirNodeView::Hir(*child));
            if let TagName::ListItem = get_node(input, *child).tag {
                let ghost taken1 = issued(opts.anchorizer);
                ListItemProcess::process(input, output, opts, context, number, *child, inner);
                number = match number {
                    Some(n) => Some(n + 1),
                    None => None,
                };
                proof {
                    let more = headings_content(nodes, *child as int, 0);
                    lemma_handed_out_then(taken0, taken1, issued(opts.anchorizer), done, more);
                    done = done + more;
                }
            }
        } else {
            assert(nodes[index as int].content[i as int] is Text);
        }
        assert(flow_list_items(
            nodes,
            theme,
            index as int,
            i as int,
            item_number(number_before),
            inner@,
            before,
        ) == flow_list_items(
            nodes,
            theme,
            index as int,
            i + 1,
            item_number(number),
            inner@,
            flow_of(*output, *context, *opts),
        )) by {
            reveal(flow_list_items);
            reveal(flow_list_item);
        }
        i += 1;
    }
    proof {
        reveal(flow_list_items);
    }
}

/// Processes the list at node `index`: flushes the current box, processes
/// the items one half margin further in, flushes again, and lets a spacer
/// follow a list that is not nested.
fn process_list(
    input: &[HirNode],
    output: &mut Vec<Element>,
    opts: &mut AstOpts,
    context: &mut TextBox,
    index: usize,
    first: Option<u128>,
    state: &InheritedState,
)
    requires
        arena_wf(input.deep_view()),
        index < input.len(),
        has_room(input.len() as nat, index as nat, *state),
        first matches Some(n) ==> n <= usize::MAX,
    ensures
        flow_of(*final(output), *final(context), *final(opts)) == flow_list(
            input.deep_view(),
            old(opts).theme,
            index as int,
            item_number(first),
            state@,
            flow_of(*old(output), *old(context), *old(opts)),
        ),
        final(opts).theme == old(opts).theme,
        handed_out(
            issued(old(opts).anchorizer),
            issued(final(opts).anchorizer),
            headings_list_items(input.deep_view(), index as int, 0),
        ),
    decreases input.len() - index, 1int,
{
    push_text_box(output, context, state);
    let mut inner = state.clone();
    inner.global_indent += 1;
    process_items(input, output, opts, context, index, first, &inner);
    push_text_box(output, context, &inner);
    if inner.global_indent == 1 {
        push_spacer(output);
    }
    proof {
        reveal(flow_list);
        reveal(flow_list_items);
    }
}

/// Walks an ordered list.
pub struct OrderedListProcess;

impl OrderedListProcess {
    /// Processes the ordered list at node `index`: numbers its items from
    /// the list's start attribute, or from one.
    pub fn process(
        input: &[HirNode],
        output: &mut Vec<Element>,
        opts: &mut AstOpts,
        context: &mut TextBox,
        index: usize,
        state: &InheritedState,
    )
        requires
            arena_wf(input.deep_view()),
            index < input.len(),
            has_room(input.len() as nat, index as nat, *state),
        ensures
            flow_of(*final(output), *final(context), *final(opts)) == flow_list(
                input.deep_view(),
                old(opts).theme,
                index as int,
                Some(list_start(input.deep_view()[index as int].attributes, 0, 1)),
                state@,
                flow_of(*old(output), *old(context), *old(opts)),
            ),
            final(opts).theme == old(opts).theme,
            handed_out(
                issued(old(opts).anchorizer),
                issued(final(opts).anchorizer),
                headings_list_items(input.deep_view(), index as int, 0),
            ),
        decreases input.len() - index, 2int,
    {
        let start = list_start_of(&get_node(input, index).attributes);
        process_list(input, output, opts, context, index, Some(start as u128), state);
    }
}

/// Walks an unordered list.
pub struct UnorderedListProcess;

impl UnorderedListProcess {
    /// Processes the unordered list at node `index`: its items get a bullet.
    pub fn process(
        input: &[HirNode],
        output: &mut Vec<Element>,
        opts: &mut AstOpts,
        context: &mut TextBox,
        index: usize,
        state: &InheritedState,
    )
        requires
            arena_wf(input.deep_view()),
            index < input.len(),
            has_room(input.len() as nat, index as nat, *state),
        ensures
            flow_of(*final(output), *final(context), *final(opts)) == flow_list(
                input.deep_view(),
                old(opts).theme,
                index as int,
                None,
                state@,
                flow_of(*old(output), *old(context), *old(opts)),
            ),
            final(opts).theme == old(opts).theme,
            handed_out(
                issued(old(opts).anchorizer),
                issued(final(opts).anchorizer),
                headings_list_items(input.deep_view(), index as int, 0),
            ),
        decreases input.len() - index, 2int,
    {
        process_list(input, output, opts, context, index, None, state);
    }
}

/// Walks a list item.
pub struct ListItemProcess;

impl ListItemProcess {
    /// Processes the list item at node `index`. `list_prefix` is the item's
    /// number in an ordered list. An item that starts with a checkbox input
    /// gets no prefix: the input sets the checkbox of the item's box.
    pub fn process(
        input: &[HirNode],
        output: &mut Vec<Element>,
        opts: &mut AstOpts,
        context: &mut TextBox,
        list_prefix: Option<u128>,
        index: usize,
        state: &InheritedState,
    )
        requires
            arena_wf(input.deep_view()),
            index < input.len(),
            has_room(input.len() as nat, index as nat, *state),
        ensures
            flow_of(*final(output), *final(context), *final(opts)) == flow_list_item(
                input.deep_view(),
                old(opts).theme,
                index as int,
                item_number(list_prefix),
                state@,
                flow_of(*old(output), *old(context), *old(opts)),
            ),
            final(opts).theme == old(opts).theme,
            handed_out(
                issued(old(opts).anchorizer),
                issued(final(opts).anchorizer),
                headings_content(input.deep_view(), index as int, 0),
            ),
        decreases input.len() - index, 2int,
    {
        if !starts_with_checkbox(input, index) {
            let prefix = match list_prefix {
                Some(number) => {
                    proof {
                        reveal_strlit(". ");
                        assert(". "@ =~= seq!['.', ' ']);
                    }
                    let mut s = decimal_string(number);
                    s.append(". ");
                    s
                },
                None => {
                    proof {
                        reveal_strlit("\u{B7} ");
                        assert("\u{B7} "@ =~= seq!['\u{B7}', ' ']);
                    }
                    "\u{B7} ".to_owned()
                },
            };
            context.push(Text::new(prefix, opts.theme.text_color).make_bold(true));
        }
        FlowProcess::process_content(input, output, opts, context, index, state);
        push_text_box(output, context, state);
        proof {
            reveal(flow_list_item);
        }
    }
}

} // verus!
