//! What opens and what closes an element, around its content.

use crate::anchor::issued;
use crate::element::{Element, Spacer};
use crate::interpreter::ast::AstOpts;
use crate::interpreter::attributes::{
    apply_anchor_attributes, apply_background, apply_span_styles,
};
use crate::interpreter::compose::{push_element, push_spacer, push_text_box};
use crate::interpreter::hir::HirNode;
use crate::interpreter::html::{checkbox_of, HeaderType, TagName};
use crate::interpreter::model::{
    closed, flow_of, handed_out, inner_state, lemma_handed_out_none, lemma_handed_out_one, opened,
    Flow,
};
use crate::interpreter::state::InheritedState;
use crate::text::TextBox;
use vstd::prelude::*;
use vstd::string::*;

verus! {

/// Opens `node`: does to the output and the current box what comes before
/// the node's content, and returns the state that the content inherits.
#[verifier::rlimit(40)]
pub(crate) fn open_node(
    node: &HirNode,
    output: &mut Vec<Element>,
    context: &mut TextBox,
    state: &InheritedState,
    Ghost(taken): Ghost<Set<Seq<char>>>,
) -> (inner: InheritedState)
    requires
        state.global_indent < usize::MAX,
        state.text_options.block_quote < usize::MAX,
    ensures
        inner@ == inner_state(node@, state@),
        inner.global_indent <= state.global_indent + 1,
        inner.text_options.block_quote <= state.text_options.block_quote + 1,
        (Flow { output: final(output).deep_view(), text_box: final(context)@, taken }) == opened(
            node@,
            state@,
            Flow { output: old(output).deep_view(), text_box: old(context)@, taken },
        ),
{
    let attributes = &node.attributes;
    let mut inner = state.clone();
    match node.tag {
        TagName::Paragraph | TagName::Div => {
            push_text_box(output, context, state);
            inner.set_align_from_attributes(attributes);
            context.set_align_or_default(inner.text_options.align);
        },
        TagName::Anchor => {
            apply_anchor_attributes(attributes, context, &mut inner);
        },
        TagName::BlockQuote => {
            push_text_box(output, context, state);
            inner.text_options.block_quote += 1;
            inner.global_indent += 1;
        },
        TagName::BoldOrStrong => {
            inner.text_options.bold = true;
        },
        TagName::Break => {
            push_text_box(output, context, state);
        },
        TagName::Code => {
            inner.text_options.code = true;
        },
        TagName::EmphasisOrItalic => {
            inner.text_options.italic = true;
        },
        TagName::Header(header) => {
            push_text_box(output, context, state);
            push_spacer(output);
            inner.set_align_from_attributes(attributes);
            context.set_align_or_default(inner.text_options.align);
            inner.text_options.bold = true;
            let percent = header.size_multiplier();
            let size = context.font_size;
            assert(size * percent <= 320000) by (nonlinear_arith)
                requires
                    size == 1600,
                    percent <= 200,
            ;
            context.font_size = size * percent / 100;
            if header == HeaderType::H1 {
                inner.text_options.underline = true;
            }
        },
        TagName::HorizontalRuler => {
            push_text_box(output, context, state);
            push_element(output, Element::Spacer(Spacer::visible()));
        },
        TagName::Input => {
            let (is_checkbox, is_checked) = checkbox_of(attributes);
            if is_checkbox {
                context.set_checkbox(Some(is_checked));
            }
        },
        TagName::PreformattedText => {
            push_text_box(output, context, state);
            apply_background(attributes, context);
            inner.text_options.pre_formatted = true;
            context.set_code_block(true);
        },
        TagName::Small => {
            inner.text_options.small = true;
        },
        TagName::Span => {
            apply_span_styles(attributes, &mut inner);
        },
        TagName::Strikethrough => {
            inner.text_options.strike_through = true;
        },
        TagName::Underline => {
            inner.text_options.underline = true;
        },
        _ => {},
    }
    inner
}

/// Closes `node`: does to the output and the current box what comes after
/// the node's content. `inner` is the state that the content inherited.
pub(crate) fn close_node(
    node: &HirNode,
    output: &mut Vec<Element>,
    opts: &mut AstOpts,
    context: &mut TextBox,
    inner: &InheritedState,
)
    ensures
        flow_of(*final(output), *final(context), *final(opts)) == closed(
            node@,
            inner@,
            flow_of(*old(output), *old(context), *old(opts)),
        ),
        final(opts).theme == old(opts).theme,
        handed_out(
            issued(old(opts).anchorizer),
            issued(final(opts).anchorizer),
            if node.tag is Header {
                1
            } else {
                0
            },
        ),
{
    proof {
        lemma_handed_out_none(issued(opts.anchorizer));
    }
    match node.tag {
        TagName::Paragraph | TagName::PreformattedText => {
            push_text_box(output, context, inner);
            push_spacer(output);
        },
        TagName::Div => {
            push_text_box(output, context, inner);
        },
        TagName::BlockQuote => {
            push_text_box(output, context, inner);
            if inner.global_indent == 1 {
                push_spacer(output);
            }
        },
        TagName::Header(_) => {
            let heading = context.chars();
            let anchor = opts.anchorizer.anchorize(heading.as_str());
            proof {
                reveal_strlit("#");
                assert("#"@ =~= seq!['#']);
                lemma_handed_out_one(issued(old(opts).anchorizer), anchor@);
            }
            let mut name = "#".to_owned();
            name.append(anchor.as_str());
            context.set_anchor(name);
            push_text_box(output, context, inner);
            push_spacer(output);
        },
        _ => {},
    }
}

} // verus!
