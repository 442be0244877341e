//! What the interpreter reads from a node's attributes.

use crate::interpreter::hir::{arena_wf, HirNode, TextOrHirNode, TextOrHirNodeView};
use crate::interpreter::html::{checkbox_of, find_style, Attr, Style, TagName};
use crate::interpreter::model::{
    first_child_is_checkbox, last_anchor, last_background, last_href, list_start, styled_span,
};
use crate::interpreter::state::{InheritedState, StateView};
use crate::text::{TextBox, TextBoxView};
use vstd::prelude::*;

verus! {

/// The node at `index`.
pub fn get_node(input: &[HirNode], index: usize) -> (node: &HirNode)
    requires
        index < input.len(),
    ensures
        *node == input@[index as int],
        node@ == input.deep_view()[index as int],
{
    &input[index]
}

/// The declarations of the first `Style` attribute, if there is one.
pub(crate) fn style_of(attributes: &Vec<Attr>) -> (decls: Option<&Vec<Style>>)
    ensures
        match decls {
            Some(d) => d@ == find_style(attributes.deep_view(), 0),
            None => find_style(attributes.deep_view(), 0) == Seq::<Style>::empty(),
        },
{
    let mut i: usize = 0;
    while i < attributes.len()
        invariant
            i <= attributes.len(),
            find_style(attributes.deep_view(), 0) == find_style(attributes.deep_view(), i as int),
        decreases attributes.len() - i,
    {
        if let Attr::Style(decls) = &attributes[i] {
            return Some(decls);
        }
        i += 1;
    }
    None
}

/// Records what the attributes of an `a` element say: the link target in the
/// state, the named anchor on the current box.
pub(crate) fn apply_anchor_attributes(
    attributes: &Vec<Attr>,
    context: &mut TextBox,
    state: &mut InheritedState,
)
    ensures
        final(state)@ == old(state)@.link(
            last_href(attributes.deep_view(), 0, old(state)@.text_options.link),
        ),
        final(context)@ == (TextBoxView {
            is_anchor: last_anchor(attributes.deep_view(), 0, old(context)@.is_anchor),
            ..old(context)@
        }),
{
    let ghost attrs = attributes.deep_view();
    let ghost state0 = state@;
    let ghost context0 = context@;
    let mut i: usize = 0;
    while i < attributes.len()
        invariant
            i <= attributes.len(),
            attrs == attributes.deep_view(),
            state@ == state0.link(state@.text_options.link),
            context@ == (TextBoxView { is_anchor: context@.is_anchor, ..context0 }),
            last_href(attrs, i as int, state@.text_options.link) == last_href(
                attrs,
                0,
                state0.text_options.link,
            ),
            last_anchor(attrs, i as int, context@.is_anchor) == last_anchor(
                attrs,
                0,
                context0.is_anchor,
            ),
        decreases attributes.len() - i,
    {
        match &attributes[i] {
            Attr::Href(link) => {
                state.text_options.link = Some(link.clone());
            },
            Attr::Anchor(name) => {
                context.set_anchor(name.clone());
            },
            _ => {},
        }
        i += 1;
    }
}

/// Applies the declarations of the element's inline style to the span.
pub(crate) fn apply_span_styles(attributes: &Vec<Attr>, state: &mut InheritedState)
    ensures
        final(state)@ == (StateView {
            span: styled_span(find_style(attributes.deep_view(), 0), 0, old(state)@.span),
            ..old(state)@
        }),
{
    if let Some(decls) = style_of(attributes) {
        let ghost state0 = state@;
        let mut i: usize = 0;
        while i < decls.len()
            invariant
                i <= decls.len(),
                state@ == (StateView { span: state@.span, ..state0 }),
                styled_span(decls@, i as int, state@.span) == styled_span(decls@, 0, state0.span),
            decreases decls.len() - i,
        {
            match decls[i] {
                Style::Color(color) => {
                    state.span.color = color;
                },
                Style::FontWeight(weight) => {
                    state.span.weight = weight;
                },
                Style::FontStyle(style) => {
                    state.span.style = style;
                },
                Style::TextDecoration(decor) => {
                    state.span.decor = decor;
                },
                Style::BackgroundColor(_) => {},
            }
            i += 1;
        }
    }
}

/// Gives the current box the background that the element's inline style names.
pub(crate) fn apply_background(attributes: &Vec<Attr>, context: &mut TextBox)
    ensures
        final(context)@ == (TextBoxView {
            background_color: last_background(
                find_style(attributes.deep_view(), 0),
                0,
                old(context)@.background_color,
            ),
            ..old(context)@
        }),
{
    if let Some(decls) = style_of(attributes) {
        let ghost context0 = context@;
        let mut i: usize = 0;
        while i < decls.len()
            invariant
                i <= decls.len(),
                context@ == (TextBoxView {
                    background_color: context@.background_color,
                    ..context0
                }),
                last_background(decls@, i as int, context@.background_color) == last_background(
                    decls@,
                    0,
                    context0.background_color,
                ),
            decreases decls.len() - i,
        {
            if let Style::BackgroundColor(color) = decls[i] {
                context.set_background_color(color);
            }
            i += 1;
        }
    }
}

/// The number of the first item of an ordered list with these attributes.
pub(crate) fn list_start_of(attributes: &Vec<Attr>) -> (start: usize)
    ensures
        start == list_start(attributes.deep_view(), 0, 1),
{
    let mut start: usize = 1;
    let mut i: usize = 0;
    while i < attributes.len()
        invariant
            i <= attributes.len(),
            list_start(attributes.deep_view(), i as int, start as nat) == list_start(
                attributes.deep_view(),
                0,
                1,
            ),
        decreases attributes.len() - i,
    {
        if let Attr::Start(n) = &attributes[i] {
            start = *n;
        }
        i += 1;
    }
    start
}

/// Whether the first content item of `node` is a checkbox input.
pub(crate) fn starts_with_checkbox(input: &[HirNode], index: usize) -> (b: bool)
    requires
        index < input.len(),
        arena_wf(input.deep_view()),
    ensures
        b == first_child_is_checkbox(input.deep_view(), index as int),
{
    let node = get_node(input, index);
    if node.content.len() == 0 {
        return false;
    }
    match &node.content[0] {
        TextOrHirNode::Hir(c) => {
            assert(input.deep_view()[index as int].content[0] == TextOrHirNodeView::Hir(*c));
            let child = get_node(input, *c);
            match child.tag {
                TagName::Input => checkbox_of(&child.attributes).0,
                _ => false,
            }
        },
        TextOrHirNode::Text(_) => false,
    }
}

} // verus!
