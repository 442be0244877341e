//! The tag dispatch.

use crate::anchor::issued;
use crate::element::Element;
use crate::interpreter::ast::AstOpts;
use crate::interpreter::attributes::get_node;
use crate::interpreter::compose::text;
use crate::interpreter::hir::{arena_wf, HirNode, TextOrHirNode, TextOrHirNodeView};
use crate::interpreter::html::TagName;
use crate::interpreter::list::{OrderedListProcess, UnorderedListProcess};
use crate::interpreter::model::{
    flow_content, flow_list, flow_node, flow_of, handed_out, has_room, headings_content,
    headings_node, lemma_handed_out_none, lemma_handed_out_then,
};
use crate::interpreter::shape::{close_node, open_node};
use crate::interpreter::state::InheritedState;
use crate::interpreter::table::TableProcess;
use crate::text::TextBox;
use vstd::prelude::*;

verus! {

/// The tag dispatch: walks the tree and fills the output.
pub struct FlowProcess;

impl FlowProcess {
    /// Processes node `index`. Lists and tables have walkers of their own. An
    /// element that is unsupported, or that stands outside the list or table
    /// it belongs to, adds nothing. Every other element is opened, has its
    /// content processed under the state it hands down, and is closed: block
    /// elements flush the current box before and after their content, inline
    /// elements only change the state.
    pub fn process(
        input: &[HirNode],
        output: &mut Vec<Element>,
        opts: &mut AstOpts,
        context: &mut TextBox,
        index: usize,
        state: &InheritedState,
    )
        requires
            arena_wf(input.deep_view()),
            index < input.len(),
            has_room(input.len() as nat, index as nat, *state),
        ensures
            flow_of(*final(output), *final(context), *final(opts)) == flow_node(
                input.deep_view(),
                old(opts).theme,
                index as int,
                state@,
                flow_of(*old(output), *old(context), *old(opts)),
            ),
            final(opts).theme == old(opts).theme,
            handed_out(
                issued(old(opts).anchorizer),
                issued(final(opts).anchorizer),
                headings_node(input.deep_view(), index as int),
            ),
        decreases input.len() - index, 3int,
    {
        let ghost taken0 = issued(opts.anchorizer);
        proof {
            lemma_handed_out_none(taken0);
        }
        let node = get_node(input, index);
        match node.tag {
            TagName::OrderedList => {
                OrderedListProcess::process(input, output, opts, context, index, state);
            },
            TagName::UnorderedList => {
                UnorderedListProcess::process(input, output, opts, context, index, state);
            },
            TagName::Table => {
                TableProcess::process(input, output, opts, index, state);
            },
            TagName::Details
            | TagName::Summary
            | TagName::Section
            | TagName::Picture
            | TagName::Source
            | TagName::Image
            | TagName::ListItem
            | TagName::TableHead
            | TagName::TableBody
            | TagName::TableRow
            | TagName::TableDataCell
            | TagName::TableHeader
            | TagName::Root => {},
            _ => {
                let inner = open_node(node, output, context, state, Ghost(issued(opts.anchorizer)));
                Self::process_content(input, output, opts, context, index, &inner);
                let ghost taken1 = issued(opts.anchorizer);
                close_node(node, output, opts, context, &inner);
                proof {
                    lemma_handed_out_then(
                        taken0,
                        taken1,
                        issued(opts.anchorizer),
                        headings_content(input.deep_view(), index as int, 0),
                        if node.tag is Header {
                            1
                        } else {
                            0
                        },
                    );
                }
            },
        }
        proof {
            reveal(flow_node);
            reveal(flow_content);
            reveal(flow_list);
        }
    }

    /// Processes the content of node `owner` in order: composes its text runs
    /// into the current box and processes its child nodes.
    pub fn process_content(
        input: &[HirNode],
        output: &mut Vec<Element>,
        opts: &mut AstOpts,
        context: &mut TextBox,
        owner: usize,
        state: &InheritedState,
    )
        requires
            arena_wf(input.deep_view()),
            owner < input.len(),
            has_room(input.len() as nat, (owner + 1) as nat, *state),
        ensures
            flow_of(*final(output), *final(context), *final(opts)) == flow_content(
                input.deep_view(),
                old(opts).theme,
                owner as int,
                0,
                state@,
                flow_of(*old(output), *old(context), *old(opts)),
            ),
            final(opts).theme == old(opts).theme,
            handed_out(
                issued(old(opts).anchorizer),
                issued(final(opts).anchorizer),
                headings_content(input.deep_view(), owner as int, 0),
            ),
        decreases input.len() - owner, 1int,
    {
        let ghost taken0 = issued(opts.anchorizer);
        let ghost nodes = input.deep_view();
        let ghost theme = opts.theme;
        let ghost flow0 = flow_of(*output, *context, *opts);
        let ghost done: nat = 0;
        proof {
            lemma_handed_out_none(taken0);
        }
        let node = get_node(input, owner);
        let mut i: usize = 0;
        while i < node.content.len()
            invariant
                i <= node.content.len(),
                owner < input.len(),
                nodes == input.deep_view(),
                arena_wf(nodes),
                node@ == nodes[owner as int],
                *node == input@[owner as int],
                has_room(input.len() as nat, (owner + 1) as nat, *state),
                opts.theme == theme,
                handed_out(taken0, issued(opts.anchorizer), done),
                done + headings_content(nodes, owner as int, i as int) == headings_content(
                    nodes,
                    owner as int,
                    0,
                ),
                flow_content(
                    nodes,
                    theme,
                    owner as int,
                    i as int,
                    state@,
                    flow_of(*output, *context, *opts),
                ) == flow_content(nodes, theme, owner as int, 0, state@, flow0),
            decreases node.content.len() - i,
        {
            let ghost before = flow_of(*output, *context, *opts);
            match &node.content[i] {
                TextOrHirNode::Text(string) => {
                    assert(nodes[owner as int].content[i as int] == TextOrHirNodeView::Text(
                        string@,
                    ));
                    text(context, string.as_str(), opts, state);
                },
                TextOrHirNode::Hir(child) => {
                    assert(nodes[owner as int].content[i as int] == TextOrHirNodeView::Hir(
                        *child,
                    ));
                    let ghost taken1 = issued(opts.anchorizer);
                    Self::process(input, output, opts, context, *child, state);
                    proof {
                        let more = headings_node(nodes, *child as int);
                        lemma_handed_out_then(
                            taken0,
                            taken1,
                            issued(opts.anchorizer),
                            done,
                            more,
                        );
                        done = done + more;
                    }
                },
            }
            assert(flow_content(nodes, theme, owner as int, i as int, state@, before)
                == flow_content(
                nodes,
                theme,
                owner as int,
                i + 1,
                state@,
                flow_of(*output, *context, *opts),
            )) by {
                reveal(flow_content);
                reveal(flow_node);
            }
            i += 1;
        }
        proof {
            reveal(flow_content);
        }
    }
}

} // verus!
