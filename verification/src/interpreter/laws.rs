//! What holds of the builder and of the interpreter on every input.

use crate::chars::{
    ends_in_word, is_blank, leading_whitespace, lemma_leading_whitespace_bounds, trim_start,
};
use crate::color::Theme;
use crate::element::ElementView;
use crate::interpreter::compose::{compose_text, space_if_needed, styled_fragment};
use crate::interpreter::hir::{arena_wf, HirNodeView, HirView, TextOrHirNodeView, TokenView};
use crate::interpreter::html::{has_checked, tag_of_name, TagName};
use crate::interpreter::model::{
    closed, first_child_is_checkbox, flow_content, flow_document, flow_list, flow_list_item,
    flow_list_items, flow_node, flow_unit, inner_state, is_passed_over, item_opened, list_start,
    opened, Flow,
};
use crate::interpreter::model::{
    are_new, handed_out, heading_name, headings_document, made_up,
};
use crate::interpreter::names::{lemma_names_document, names_document};
use crate::interpreter::state::StateView;
use crate::text::{TextBoxView, TextView};
use vstd::prelude::*;

verus! {

/// Whether `token` is an end tag for `tag`.
pub open spec fn closes(token: TokenView, tag: TagName) -> bool {
    token matches TokenView::EndTag { name } && tag_of_name(name) == Some(tag)
}

/// Whether the tokens from `lo` up to, but without, `hi` are properly
/// nested: every tag name is known, every start tag of an element that can
/// have content is followed, after a properly nested stretch, by its end
/// tag, and no other end tag occurs but that of a void element.
pub open spec fn balanced(tokens: Seq<TokenView>, lo: int, hi: int) -> bool
    decreases hi - lo,
{
    if lo >= hi {
        true
    } else if lo < 0 || hi > tokens.len() {
        false
    } else {
        match tokens[lo] {
            TokenView::Text(_) => balanced(tokens, lo + 1, hi),
            TokenView::StartTag { name, attributes, self_closing } => match tag_of_name(name) {
                None => false,
                Some(tag) => if self_closing || tag.spec_is_void() {
                    balanced(tokens, lo + 1, hi)
                } else {
                    exists|k: int|
                        lo < k < hi && #[trigger] closes(tokens[k], tag) && balanced(
                            tokens,
                            lo + 1,
                            k,
                        ) && balanced(tokens, k + 1, hi)
                },
            },
            TokenView::EndTag { name } => match tag_of_name(name) {
                None => false,
                Some(tag) => tag.spec_is_void() && balanced(tokens, lo + 1, hi),
            },
            TokenView::End => false,
        }
    }
}

/// Whether `tokens` is a well-formed stream: properly nested tokens, and
/// then the end of the stream.
pub open spec fn well_formed(tokens: Seq<TokenView>) -> bool {
    &&& tokens.len() >= 1
    &&& tokens.last() is End
    &&& balanced(tokens, 0, tokens.len() - 1)
}

/// Running the builder over a stretch of tokens is running it over the
/// first part of the stretch and then over the rest, and the errors add up.
pub proof fn lemma_run_split(st: HirView, tokens: Seq<TokenView>, lo: int, mid: int, hi: int)
    requires
        0 <= lo <= mid <= hi <= tokens.len(),
    ensures
        st.run(tokens, lo, hi) == st.run(tokens, lo, mid).run(tokens, mid, hi),
        st.run_errors(tokens, lo, hi) == st.run_errors(tokens, lo, mid) + st.run(
            tokens,
            lo,
            mid,
        ).run_errors(tokens, mid, hi),
    decreases mid - lo,
{
    if lo < mid {
        lemma_run_split(st.token(tokens[lo]), tokens, lo + 1, mid, hi);
    }
}

/// Over properly nested tokens the builder reports no structural error, and
/// it ends with the same elements open as it began with.
pub proof fn lemma_balanced_run(st: HirView, tokens: Seq<TokenView>, lo: int, hi: int)
    requires
        st.parents.len() >= 1,
        0 <= lo,
        hi <= tokens.len(),
        balanced(tokens, lo, hi),
    ensures
        st.run(tokens, lo, hi).to_close == st.to_close,
        st.run(tokens, lo, hi).parents == st.parents,
        st.run_errors(tokens, lo, hi) == 0,
    decreases hi - lo,
{
    if lo < hi {
        let next = st.token(tokens[lo]);
        match tokens[lo] {
            TokenView::StartTag { name, attributes, self_closing } => {
                let tag = tag_of_name(name)->0;
                if self_closing || tag.spec_is_void() {
                    lemma_balanced_run(next, tokens, lo + 1, hi);
                } else {
                    let k = choose|k: int|
                        lo < k < hi && #[trigger] closes(tokens[k], tag) && balanced(
                            tokens,
                            lo + 1,
                            k,
                        ) && balanced(tokens, k + 1, hi);
                    lemma_balanced_run(next, tokens, lo + 1, k);
                    let inner = next.run(tokens, lo + 1, k);
                    let after = inner.token(tokens[k]);
                    assert(after.to_close =~= st.to_close);
                    assert(after.parents =~= st.parents);
                    assert(inner.outcome(tokens[k]).errors() == 0);
                    lemma_balanced_run(after, tokens, k + 1, hi);
                    lemma_run_split(next, tokens, lo + 1, k, hi);
                    assert(inner.run(tokens, k, hi) == after.run(tokens, k + 1, hi));
                    assert(inner.run_errors(tokens, k, hi) == after.run_errors(tokens, k + 1, hi));
                }
            },
            _ => {
                lemma_balanced_run(next, tokens, lo + 1, hi);
            },
        }
    }
}

/// For every well-formed stream the builder reports no mismatched end tag
/// and no unclosed element.
pub proof fn lemma_well_formed_stream(tokens: Seq<TokenView>)
    requires
        well_formed(tokens),
    ensures
        HirView::new().run_errors(tokens, 0, tokens.len() as int) == 0,
{
    let n = tokens.len() - 1;
    let st = HirView::new();
    lemma_balanced_run(st, tokens, 0, n);
    lemma_run_split(st, tokens, 0, n, n + 1);
    let last = st.run(tokens, 0, n);
    assert(last.to_close =~= seq![TagName::Root]);
    assert(last.unclosed() =~= Seq::<TagName>::empty());
    assert(last.run_errors(tokens, n, n + 1) == last.outcome(tokens[n]).errors() + last.token(
        tokens[n],
    ).run_errors(tokens, n + 1, n + 1));
}

/// An end tag that matches the innermost awaited tag closes the current
/// node: the node comes off the parent stack with its tag, and the node
/// that was current before it was opened is current again.
pub proof fn lemma_matching_end_tag_closes(st: HirView, name: Seq<char>)
    requires
        st.wf(),
        st.to_close.len() >= 1,
        tag_of_name(name) == Some(st.to_close.last()),
        !st.to_close.last().spec_is_void(),
    ensures
        st.end_tag_error(name) is None,
        st.parents.len() >= 2,
        st.end_tag(name).parents == st.parents.drop_last(),
        st.end_tag(name).to_close == st.to_close.drop_last(),
        st.end_tag(name).nodes == st.nodes,
        st.end_tag(name).wf(),
{
    let last = st.to_close.len() - 1;
    assert(st.to_close[last] != TagName::Root);
    let after = st.end_tag(name);
    assert(after.root_awaited() == st.root_awaited());
}

/// Interpreting an empty document gives no element, and no anchor is
/// handed out.
pub proof fn lemma_empty_document(theme: Theme, taken: Set<Seq<char>>)
    ensures
        flow_document(HirView::new().nodes, theme, 0, Flow::start(taken)).output
            == Seq::<ElementView>::empty(),
        flow_document(HirView::new().nodes, theme, 0, Flow::start(taken)).taken == taken,
{
}

/// Outside preformatted text, a run of whitespace between a text run that
/// ends in a word and a text run that holds a word becomes exactly one space
/// fragment: the box then ends in what the first run gave, the space, and
/// the second run as it stands.
pub proof fn lemma_whitespace_collapses(
    tb: TextBoxView,
    a: Seq<char>,
    w: Seq<char>,
    b: Seq<char>,
    theme: Theme,
    st: StateView,
)
    requires
        !st.text_options.pre_formatted,
        ends_in_word(a),
        is_blank(w),
        w.len() >= 1,
        !is_blank(b),
    ensures
        ({
            let first = compose_text(tb, a, theme, st);
            let last = compose_text(compose_text(first, w, theme, st), b, theme, st);
            &&& first.texts.len() == tb.texts.len() + 1
            &&& last.texts == first.texts.push(TextView::new(seq![' '], theme.text_color)).push(
                styled_fragment(b, theme, st),
            )
        }),
{
    reveal(compose_text);
    assert(!is_blank(a)) by {
        assert(a[a.len() - 1] == a.last());
    }
    lemma_leading_whitespace_bounds(a, 0);
    let first = compose_text(tb, a, theme, st);
    let shown = first.texts.last().text;
    assert(ends_in_word(shown)) by {
        if tb.texts.len() == 0 {
            assert(shown == trim_start(a));
            assert(trim_start(a).last() == a.last());
        }
    }
    let spaced = compose_text(first, w, theme, st);
    assert(spaced == space_if_needed(first, theme));
    assert(b != seq!['\n']) by {
        if b == seq!['\n'] {
            assert(is_blank(b));
        }
    }
}

/// Outside preformatted text, a second run of whitespace adds nothing to
/// what a first one left.
pub proof fn lemma_whitespace_once(
    tb: TextBoxView,
    w1: Seq<char>,
    w2: Seq<char>,
    theme: Theme,
    st: StateView,
)
    requires
        !st.text_options.pre_formatted,
        is_blank(w1),
        is_blank(w2),
    ensures
        compose_text(compose_text(tb, w1, theme, st), w2, theme, st) == compose_text(
            tb,
            w1,
            theme,
            st,
        ),
{
    reveal(compose_text);
    let once = compose_text(tb, w1, theme, st);
    assert(once == space_if_needed(tb, theme));
    assert(compose_text(once, w2, theme, st) == space_if_needed(once, theme));
    if tb.texts.len() > 0 && ends_in_word(tb.texts.last().text) {
        assert(once.texts.last().text == seq![' ']);
    }
}

/// In preformatted text a newline becomes exactly one newline fragment, and
/// any other run becomes one fragment that holds the run as it stands,
/// leading whitespace included.
pub proof fn lemma_preformatted_fidelity(tb: TextBoxView, s: Seq<char>, theme: Theme, st: StateView)
    requires
        st.text_options.pre_formatted,
    ensures
        s == seq!['\n'] ==> compose_text(tb, s, theme, st) == tb.push(
            TextView::new(seq!['\n'], theme.text_color),
        ),
        s != seq!['\n'] ==> compose_text(tb, s, theme, st).texts == tb.texts.push(
            styled_fragment(s, theme, st),
        ),
        styled_fragment(s, theme, st).text == s,
{
    reveal(compose_text);
    if s == seq!['\n'] {
        let with_newline = tb.push(TextView::new(seq!['\n'], theme.text_color));
        assert(with_newline.texts.last().text == seq!['\n']);
    }
}

/// A fragment inside a link is drawn in the link color, whatever else
/// applies to it: inside inline code too.
pub proof fn lemma_link_color_wins(s: Seq<char>, theme: Theme, st: StateView)
    requires
        st.text_options.link is Some,
    ensures
        styled_fragment(s, theme, st).shown_color() == theme.link_color,
        styled_fragment(s, theme, st).link == st.text_options.link,
{
}

/// A list item whose first content item is a checkbox input gets no
/// prefix: its content is processed from the box as it was, and the input
/// sets the checkbox of that box to whether it is ticked.
pub proof fn lemma_checkbox_item(
    nodes: Seq<HirNodeView>,
    theme: Theme,
    index: int,
    number: Option<nat>,
    st: StateView,
    flow: Flow,
)
    requires
        arena_wf(nodes),
        first_child_is_checkbox(nodes, index),
    ensures
        ({
            let input = nodes[index].content[0]->Hir_0 as int;
            let ticked = flow.with_box(
                TextBoxView {
                    is_checkbox: Some(has_checked(nodes[input].attributes)),
                    ..flow.text_box
                },
            );
            &&& flow_list_item(nodes, theme, index, number, st, flow) == flow_content(
                nodes,
                theme,
                index,
                1,
                st,
                flow_content(nodes, theme, input, 0, st, ticked),
            ).flush(st)
            &&& nodes[input].content.len() == 0 ==> flow_list_item(
                nodes,
                theme,
                index,
                number,
                st,
                flow,
            ) == flow_content(nodes, theme, index, 1, st, ticked).flush(st)
        }),
{
    reveal(flow_list_item);
    reveal(flow_content);
    reveal(flow_node);
    let input = nodes[index].content[0]->Hir_0 as int;
    assert(nodes[index].content[0] == TextOrHirNodeView::Hir(input as usize));
    assert(index < input < nodes.len());
}

/// A run of text with a word in it, composed into a box without
/// fragments, gives the box one fragment that holds the run, without its
/// leading whitespace unless the text is preformatted. The checkbox of the
/// box stays as it was.
pub proof fn lemma_first_run(tb: TextBoxView, s: Seq<char>, theme: Theme, st: StateView)
    requires
        tb.texts.len() == 0,
        !is_blank(s),
    ensures
        ({
            let filled = compose_text(tb, s, theme, st);
            &&& filled.texts.len() == 1
            &&& filled.texts[0].text == if st.text_options.pre_formatted {
                s
            } else {
                trim_start(s)
            }
            &&& filled.texts[0].text.len() > 0
            &&& filled.is_checkbox == tb.is_checkbox
        }),
{
    reveal(compose_text);
    assert(s != seq!['\n']) by {
        if s == seq!['\n'] {
            assert(is_blank(s));
        }
    }
    lemma_leading_whitespace_bounds(s, 0);
    if leading_whitespace(s, 0) == s.len() {
        assert(is_blank(s));
    }
}

/// A list item that holds a checkbox input and then one run of text with a
/// word in it, processed from an empty box, emits one box: it holds the text
/// alone, without a bullet or a number before it, and its checkbox is ticked
/// exactly if the input is.
pub proof fn lemma_checkbox_item_box(
    nodes: Seq<HirNodeView>,
    theme: Theme,
    index: int,
    number: Option<nat>,
    st: StateView,
    flow: Flow,
    s: Seq<char>,
)
    requires
        arena_wf(nodes),
        first_child_is_checkbox(nodes, index),
        nodes[nodes[index].content[0]->Hir_0 as int].content.len() == 0,
        nodes[index].content.len() == 2,
        nodes[index].content[1] == TextOrHirNodeView::Text(s),
        !is_blank(s),
        flow.text_box.texts.len() == 0,
    ensures
        ({
            let input = nodes[index].content[0]->Hir_0 as int;
            let after = flow_list_item(nodes, theme, index, number, st, flow);
            &&& after.output.len() == flow.output.len() + 1
            &&& after.output.subrange(0, flow.output.len() as int) == flow.output
            &&& after.output.last() matches ElementView::TextBox(item)
            &&& item.is_checkbox == Some(has_checked(nodes[input].attributes))
            &&& item.texts.len() == 1
            &&& item.texts[0].text == if st.text_options.pre_formatted {
                s
            } else {
                trim_start(s)
            }
        }),
{
    lemma_checkbox_item(nodes, theme, index, number, st, flow);
    let input = nodes[index].content[0]->Hir_0 as int;
    let ticked = flow.with_box(
        TextBoxView {
            is_checkbox: Some(has_checked(nodes[input].attributes)),
            ..flow.text_box
        },
    );
    let filled = ticked.text(s, theme, st);
    lemma_first_run(ticked.text_box, s, theme, st);
    assert(flow_content(nodes, theme, index, 1, st, ticked) == flow_content(
        nodes,
        theme,
        index,
        2,
        st,
        filled,
    )) by {
        reveal(flow_content);
    }
    assert(flow_content(nodes, theme, index, 2, st, filled) == filled) by {
        reveal(flow_content);
    }
    assert(filled.text_box.has_content());
    let after = filled.flush(st);
    assert(after.output.subrange(0, flow.output.len() as int) =~= flow.output);
}

/// Whether the output `after` continues the output `before`: what had been
/// emitted stands as it was, and every box emitted since holds text.
pub open spec fn continues(before: Seq<ElementView>, after: Seq<ElementView>) -> bool {
    &&& before.len() <= after.len()
    &&& forall|i: int| 0 <= i < before.len() ==> after[i] == before[i]
    &&& forall|i: int|
        before.len() <= i < after.len() ==> match #[trigger] after[i] {
            ElementView::TextBox(b) => b.has_content(),
            _ => true,
        }
}

/// An output continues itself.
pub proof fn lemma_continues_itself(output: Seq<ElementView>)
    ensures
        continues(output, output),
{
}

/// What continues a continuation of an output continues that output.
pub proof fn lemma_continues_further(
    before: Seq<ElementView>,
    between: Seq<ElementView>,
    after: Seq<ElementView>,
)
    requires
        continues(before, between),
        continues(between, after),
    ensures
        continues(before, after),
{
    assert forall|i: int| before.len() <= i < after.len() implies match #[trigger] after[i] {
        ElementView::TextBox(b) => b.has_content(),
        _ => true,
    } by {
        if i < between.len() {
            assert(after[i] == between[i]);
        }
    }
}

/// Opening an element continues the output.
pub proof fn lemma_opened_continues(node: HirNodeView, st: StateView, flow: Flow)
    ensures
        continues(flow.output, opened(node, st, flow).output),
{
}

/// Closing an element continues the output.
pub proof fn lemma_closed_continues(node: HirNodeView, inner: StateView, flow: Flow)
    ensures
        continues(flow.output, closed(node, inner, flow).output),
{
}

/// Processing a node never changes what has been emitted, and never emits a
/// box without text.
pub proof fn lemma_node_continues(
    nodes: Seq<HirNodeView>,
    theme: Theme,
    index: int,
    st: StateView,
    flow: Flow,
)
    ensures
        continues(flow.output, flow_node(nodes, theme, index, st, flow).output),
    decreases nodes.len() - index, 2int,
{
    let after = flow_node(nodes, theme, index, st, flow);
    if 0 <= index < nodes.len() {
        let node = nodes[index];
        if node.tag == TagName::OrderedList || node.tag == TagName::UnorderedList {
            let first = if node.tag == TagName::OrderedList {
                Some(list_start(node.attributes, 0, 1))
            } else {
                None
            };
            lemma_list_continues(nodes, theme, index, first, st, flow);
            assert(after == flow_list(nodes, theme, index, first, st, flow)) by {
                reveal(flow_node);
                reveal(flow_list);
            }
        } else if node.tag == TagName::Table || is_passed_over(node.tag) {
            assert(continues(flow.output, after.output)) by {
                reveal(flow_node);
            }
        } else {
            let inner = inner_state(node, st);
            let open = opened(node, st, flow);
            let filled = flow_content(nodes, theme, index, 0, inner, open);
            lemma_opened_continues(node, st, flow);
            lemma_content_continues(nodes, theme, index, 0, inner, open);
            lemma_closed_continues(node, inner, filled);
            lemma_continues_further(flow.output, open.output, filled.output);
            lemma_continues_further(flow.output, filled.output, closed(node, inner, filled).output);
            assert(after == closed(node, inner, filled)) by {
                reveal(flow_node);
                reveal(flow_content);
            }
        }
    } else {
        assert(after == flow) by {
            reveal(flow_node);
        }
    }
}

/// Processing the content of a node never changes what has been emitted,
/// and never emits a box without text.
pub proof fn lemma_content_continues(
    nodes: Seq<HirNodeView>,
    theme: Theme,
    owner: int,
    i: int,
    st: StateView,
    flow: Flow,
)
    ensures
        continues(flow.output, flow_content(nodes, theme, owner, i, st, flow).output),
    decreases nodes.len() - owner, 1int, nodes[owner].content.len() - i,
{
    let after = flow_content(nodes, theme, owner, i, st, flow);
    if 0 <= owner < nodes.len() && 0 <= i < nodes[owner].content.len() {
        let next = match nodes[owner].content[i] {
            TextOrHirNodeView::Text(s) => flow.text(s, theme, st),
            TextOrHirNodeView::Hir(c) => if owner < c < nodes.len() {
                lemma_node_continues(nodes, theme, c as int, st, flow);
                flow_node(nodes, theme, c as int, st, flow)
            } else {
                flow
            },
        };
        lemma_content_continues(nodes, theme, owner, i + 1, st, next);
        assert(after == flow_content(nodes, theme, owner, i + 1, st, next)) by {
            reveal(flow_content);
            reveal(flow_node);
        }
        lemma_continues_further(flow.output, next.output, after.output);
    } else {
        assert(after == flow) by {
            reveal(flow_content);
        }
    }
}

/// Processing a list never changes what has been emitted, and never emits
/// a box without text.
pub proof fn lemma_list_continues(
    nodes: Seq<HirNodeView>,
    theme: Theme,
    index: int,
    first: Option<nat>,
    st: StateView,
    flow: Flow,
)
    ensures
        continues(flow.output, flow_list(nodes, theme, index, first, st, flow).output),
    decreases nodes.len() - index, 1int,
{
    let after = flow_list(nodes, theme, index, first, st, flow);
    if 0 <= index < nodes.len() {
        let inner = st.indented();
        let open = flow.flush(st);
        let filled = flow_list_items(nodes, theme, index, 0, first, inner, open);
        lemma_list_items_continues(nodes, theme, index, 0, first, inner, open);
        lemma_continues_further(flow.output, open.output, filled.output);
        let closed = filled.flush(inner);
        let spaced = if inner.global_indent == 1 {
            closed.spacer()
        } else {
            closed
        };
        lemma_continues_further(flow.output, filled.output, spaced.output);
        assert(after == spaced) by {
            reveal(flow_list);
            reveal(flow_list_items);
        }
    } else {
        assert(after == flow) by {
            reveal(flow_list);
        }
    }
}

/// Processing the items of a list never changes what has been emitted, and
/// never emits a box without text.
pub proof fn lemma_list_items_continues(
    nodes: Seq<HirNodeView>,
    theme: Theme,
    owner: int,
    i: int,
    number: Option<nat>,
    st: StateView,
    flow: Flow,
)
    ensures
        continues(
            flow.output,
            flow_list_items(nodes, theme, owner, i, number, st, flow).output,
        ),
    decreases nodes.len() - owner, 0int, nodes[owner].content.len() - i,
{
    let after = flow_list_items(nodes, theme, owner, i, number, st, flow);
    if 0 <= owner < nodes.len() && 0 <= i < nodes[owner].content.len() {
        let is_item = nodes[owner].content[i] matches TextOrHirNodeView::Hir(c) && owner < c
            < nodes.len() && nodes[c as int].tag == TagName::ListItem;
        let next = if is_item {
            let c = nodes[owner].content[i]->Hir_0 as int;
            lemma_list_item_continues(nodes, theme, c, number, st, flow);
            flow_list_item(nodes, theme, c, number, st, flow)
        } else {
            flow
        };
        let next_number: Option<nat> = if is_item {
            match number {
                Some(n) => Some((n + 1) as nat),
                None => None,
            }
        } else {
            number
        };
        lemma_list_items_continues(nodes, theme, owner, i + 1, next_number, st, next);
        assert(after == flow_list_items(nodes, theme, owner, i + 1, next_number, st, next)) by {
            reveal(flow_list_items);
            reveal(flow_list_item);
        }
        lemma_continues_further(flow.output, next.output, after.output);
    } else {
        assert(after == flow) by {
            reveal(flow_list_items);
        }
    }
}

/// Processing a list item never changes what has been emitted, and never
/// emits a box without text.
pub proof fn lemma_list_item_continues(
    nodes: Seq<HirNodeView>,
    theme: Theme,
    index: int,
    number: Option<nat>,
    st: StateView,
    flow: Flow,
)
    ensures
        continues(flow.output, flow_list_item(nodes, theme, index, number, st, flow).output),
    decreases nodes.len() - index, 2int,
{
    let after = flow_list_item(nodes, theme, index, number, st, flow);
    if 0 <= index < nodes.len() {
        let open = item_opened(nodes, theme, index, number, flow);
        let filled = flow_content(nodes, theme, index, 0, st, open);
        lemma_content_continues(nodes, theme, index, 0, st, open);
        lemma_continues_further(flow.output, filled.output, filled.flush(st).output);
        assert(after == filled.flush(st)) by {
            reveal(flow_list_item);
            reveal(flow_content);
        }
    } else {
        assert(after == flow) by {
            reveal(flow_list_item);
        }
    }
}

/// Interpreting a document never changes what has been emitted, and never
/// emits a box without text.
pub proof fn lemma_document_continues(
    nodes: Seq<HirNodeView>,
    theme: Theme,
    i: int,
    flow: Flow,
)
    ensures
        continues(flow.output, flow_document(nodes, theme, i, flow).output),
    decreases nodes[0].content.len() - i,
{
    if 0 < nodes.len() && 0 <= i < nodes[0].content.len() {
        let next = match nodes[0].content[i] {
            TextOrHirNodeView::Hir(c) => if c < nodes.len() {
                let st = StateView::with_span_color(theme.code_color);
                let start = Flow::start(flow.taken);
                let walked = flow_node(nodes, theme, c as int, st, start);
                let unit = flow_unit(nodes, theme, c as int, flow.taken);
                lemma_node_continues(nodes, theme, c as int, st, start);
                lemma_continues_further(start.output, walked.output, unit.output);
                Flow { output: flow.output + unit.output, taken: unit.taken, ..flow }
            } else {
                flow
            },
            TextOrHirNodeView::Text(_) => flow,
        };
        lemma_document_continues(nodes, theme, i + 1, next);
        lemma_continues_further(
            flow.output,
            next.output,
            flow_document(nodes, theme, i, flow).output,
        );
    }
}

/// The anchors that heading boxes carry for the given names: each name
/// after a number sign.
pub open spec fn heading_anchors(names: Seq<Seq<char>>) -> Seq<Seq<char>> {
    names.map_values(|name: Seq<char>| seq!['#'] + name)
}

/// Names that make up what an anchorizer has handed out since it had handed
/// out `before`, and that are as many as the anchors it has handed out
/// since, each of them new when it was handed out, are pairwise different,
/// and none of them is in `before`: were two of them the same, they would
/// make up fewer anchors than were handed out.
pub proof fn lemma_counted_names_differ(
    names: Seq<Seq<char>>,
    before: Set<Seq<char>>,
    after: Set<Seq<char>>,
)
    requires
        handed_out(before, after, names.len()),
        made_up(names, before, after),
    ensures
        names.no_duplicates(),
        forall|i: int| 0 <= i < names.len() ==> !before.contains(#[trigger] names[i]),
{
    let fresh = choose|fresh: Seq<Seq<char>>|
        #[trigger] are_new(fresh, before, after) && fresh.len() == names.len();
    vstd::seq_lib::seq_to_set_is_finite(fresh);
    vstd::seq_lib::seq_to_set_is_finite(names);
    assert(fresh.to_set().subset_of(names.to_set())) by {
        assert forall|name: Seq<char>| fresh.to_set().contains(name) implies names.to_set()
            .contains(name) by {
            let i = choose|i: int| 0 <= i < fresh.len() && fresh[i] == name;
            assert(!before.contains(fresh[i]));
            assert(after.contains(name));
        }
    }
    fresh.unique_seq_to_set();
    names.lemma_cardinality_of_set();
    vstd::set_lib::lemma_len_subset(fresh.to_set(), names.to_set());
    names.lemma_no_dup_set_cardinality();
    vstd::set_lib::lemma_subset_equality(fresh.to_set(), names.to_set());
    assert forall|i: int| 0 <= i < names.len() implies !before.contains(#[trigger] names[i]) by {
        assert(names.contains(names[i]));
        assert(fresh.to_set().contains(names[i]));
        let j = choose|j: int| 0 <= j < fresh.len() && fresh[j] == names[i];
        assert(!before.contains(fresh[j]));
    }
}

/// Anchors made of different names are different.
pub proof fn lemma_heading_anchors_keep_apart(names: Seq<Seq<char>>)
    requires
        names.no_duplicates(),
    ensures
        heading_anchors(names).no_duplicates(),
{
    let anchors = heading_anchors(names);
    assert forall|i: int, j: int|
        0 <= i < anchors.len() && 0 <= j < anchors.len() && i != j implies anchors[i]
        != anchors[j] by {
        assert(anchors[i].skip(1) =~= names[i]);
        assert(anchors[j].skip(1) =~= names[j]);
    }
}

/// No two headings of a document share an anchor, whatever text they hold,
/// and no heading gets an anchor that the anchorizer had handed out before
/// the document. The names are those that `closed` puts, after a number
/// sign, on the box of each heading. What is required is what
/// `Ast::interpret` ensures of the anchorizer: that it has handed out one
/// new anchor for each heading.
pub proof fn lemma_heading_anchors_differ(
    nodes: Seq<HirNodeView>,
    theme: Theme,
    taken: Set<Seq<char>>,
)
    requires
        handed_out(
            taken,
            flow_document(nodes, theme, 0, Flow::start(taken)).taken,
            headings_document(nodes, 0),
        ),
    ensures
        ({
            let names = names_document(nodes, theme, 0, Flow::start(taken));
            &&& names.len() == headings_document(nodes, 0)
            &&& names.no_duplicates()
            &&& forall|i: int| 0 <= i < names.len() ==> !taken.contains(#[trigger] names[i])
            &&& heading_anchors(names).no_duplicates()
        }),
{
    let start = Flow::start(taken);
    let names = names_document(nodes, theme, 0, start);
    lemma_names_document(nodes, theme, 0, start);
    lemma_counted_names_differ(names, taken, flow_document(nodes, theme, 0, start).taken);
    lemma_heading_anchors_keep_apart(names);
}

/// A heading that holds text emits its box with its name on it, after a
/// number sign, and a spacer after the box.
pub proof fn lemma_heading_box_carries_its_name(node: HirNodeView, inner: StateView, flow: Flow)
    requires
        node.tag is Header,
        flow.text_box.has_content(),
    ensures
        ({
            let after = closed(node, inner, flow);
            &&& after.output.len() == flow.output.len() + 2
            &&& after.output.subrange(0, flow.output.len() as int) == flow.output
            &&& after.output[flow.output.len() as int] matches ElementView::TextBox(heading)
            &&& heading.is_anchor == Some(seq!['#'] + heading_name(flow))
            &&& heading.texts == flow.text_box.texts
            &&& after.taken == flow.taken.insert(heading_name(flow))
        }),
{
    let named = TextBoxView {
        is_anchor: Some(seq!['#'] + heading_name(flow)),
        ..flow.text_box
    };
    assert(named.has_content()) by {
        let i = choose|i: int|
            0 <= i < flow.text_box.texts.len() && (#[trigger] flow.text_box.texts[i]).text.len()
                > 0;
        assert(named.texts[i].text.len() > 0);
    }
    let after = closed(node, inner, flow);
    assert(after.output.subrange(0, flow.output.len() as int) =~= flow.output);
}

} // verus!
