//! What the interpreter computes, as functions on the views of its data.

use crate::anchor::{anchor_for, issued};
use crate::chars::decimal;
use crate::color::Theme;
use crate::element::{Element, ElementView, Spacer, TableView};
use crate::interpreter::ast::AstOpts;
use crate::interpreter::compose::{compose_text, flushed, fresh_box};
use crate::interpreter::hir::{HirNodeView, TextOrHirNodeView};
use crate::interpreter::html::{
    find_style, has_checkbox, has_checked, Align, AttrView, HeaderType, Style, TagName,
};
use crate::interpreter::state::{InheritedState, Span, StateView};
use crate::text::{TextBox, TextBoxView, TextView};
use vstd::prelude::*;

verus! {

/// What the walk over the tree accumulates.
pub struct Flow {
    /// The elements emitted so far.
    pub output: Seq<ElementView>,
    /// The current box, which collects fragments until it is flushed.
    pub text_box: TextBoxView,
    /// The anchors that the anchorizer has handed out.
    pub taken: Set<Seq<char>>,
}

impl Flow {
    /// The start of a walk: no output, an empty box.
    pub open spec fn start(taken: Set<Seq<char>>) -> Flow {
        Flow { output: Seq::empty(), text_box: TextBoxView::new(Seq::empty()), taken }
    }

    /// Flushes the current box.
    pub open spec fn flush(self, st: StateView) -> Flow {
        Flow {
            output: flushed(self.output, self.text_box, st),
            text_box: fresh_box(self.text_box, st),
            ..self
        }
    }

    /// Appends an element to the output.
    pub open spec fn emit(self, element: ElementView) -> Flow {
        Flow { output: self.output.push(element), ..self }
    }

    /// Appends an invisible spacer to the output.
    pub open spec fn spacer(self) -> Flow {
        self.emit(ElementView::Spacer(Spacer { visible: false }))
    }

    /// Replaces the current box.
    pub open spec fn with_box(self, text_box: TextBoxView) -> Flow {
        Flow { text_box, ..self }
    }

    /// Aligns the current box as `align` says, to the left if it says nothing.
    pub open spec fn align(self, align: Option<Align>) -> Flow {
        self.with_box(
            TextBoxView {
                align: match align {
                    Some(a) => a,
                    None => Align::Left,
                },
                ..self.text_box
            },
        )
    }

    /// Composes a text run into the current box.
    pub open spec fn text(self, s: Seq<char>, theme: Theme, st: StateView) -> Flow {
        self.with_box(compose_text(self.text_box, s, theme, st))
    }
}

/// The link target in force after the attributes from `i` on: that of the
/// last `Href` among them, or `acc` if there is none.
pub open spec fn last_href(attrs: Seq<AttrView>, i: int, acc: Option<Seq<char>>) -> Option<
    Seq<char>,
>
    decreases attrs.len() - i,
{
    if 0 <= i < attrs.len() {
        match attrs[i] {
            AttrView::Href(target) => last_href(attrs, i + 1, Some(target)),
            _ => last_href(attrs, i + 1, acc),
        }
    } else {
        acc
    }
}

/// The named anchor in force after the attributes from `i` on: that of the
/// last `Anchor` among them, or `acc` if there is none.
pub open spec fn last_anchor(attrs: Seq<AttrView>, i: int, acc: Option<Seq<char>>) -> Option<
    Seq<char>,
>
    decreases attrs.len() - i,
{
    if 0 <= i < attrs.len() {
        match attrs[i] {
            AttrView::Anchor(name) => last_anchor(attrs, i + 1, Some(name)),
            _ => last_anchor(attrs, i + 1, acc),
        }
    } else {
        acc
    }
}

/// The number of the first item of an ordered list: that of the last `Start`
/// among the attributes from `i` on, or `acc` if there is none.
pub open spec fn list_start(attrs: Seq<AttrView>, i: int, acc: nat) -> nat
    decreases attrs.len() - i,
{
    if 0 <= i < attrs.len() {
        match attrs[i] {
            AttrView::Start(n) => list_start(attrs, i + 1, n as nat),
            _ => list_start(attrs, i + 1, acc),
        }
    } else {
        acc
    }
}

/// The span after the declarations from `i` on have been applied to it, each
/// overriding what came before.
pub open spec fn styled_span(decls: Seq<Style>, i: int, span: Span) -> Span
    decreases decls.len() - i,
{
    if 0 <= i < decls.len() {
        styled_span(
            decls,
            i + 1,
            match decls[i] {
                Style::Color(color) => Span { color, ..span },
                Style::FontWeight(weight) => Span { weight, ..span },
                Style::FontStyle(style) => Span { style, ..span },
                Style::TextDecoration(decor) => Span { decor, ..span },
                Style::BackgroundColor(_) => span,
            },
        )
    } else {
        span
    }
}

/// The background in force after the declarations from `i` on: that of the
/// last `BackgroundColor` among them, or `acc` if there is none.
pub open spec fn last_background(decls: Seq<Style>, i: int, acc: Option<u32>) -> Option<u32>
    decreases decls.len() - i,
{
    if 0 <= i < decls.len() {
        match decls[i] {
            Style::BackgroundColor(color) => last_background(decls, i + 1, Some(color)),
            _ => last_background(decls, i + 1, acc),
        }
    } else {
        acc
    }
}

/// Whether the first content item of node `index` is a checkbox input.
pub open spec fn first_child_is_checkbox(nodes: Seq<HirNodeView>, index: int) -> bool {
    &&& 0 <= index < nodes.len()
    &&& nodes[index].content.len() > 0
    &&& nodes[index].content[0] matches TextOrHirNodeView::Hir(c)
    &&& c < nodes.len()
    &&& nodes[c as int].tag == TagName::Input
    &&& has_checkbox(nodes[c as int].attributes)
}

/// The text that stands before a list item: its number and a full stop in an
/// ordered list, a middle dot in an unordered one, and a space.
pub open spec fn list_prefix(number: Option<nat>) -> Seq<char> {
    match number {
        Some(n) => decimal(n) + seq!['.', ' '],
        None => seq!['\u{B7}', ' '],
    }
}

/// The font size of a heading's box: `size` scaled by the level's factor.
pub open spec fn heading_font_size(size: nat, level: HeaderType) -> nat {
    size * level.spec_size_multiplier() / 100
}

/// Whether the interpreter passes over elements of this kind: unsupported
/// ones, and ones that only mean something inside a list or a table, where
/// the walker of the list or table deals with them.
pub open spec fn is_passed_over(tag: TagName) -> bool {
    match tag {
        TagName::Details
        | TagName::Summary
        | TagName::Section
        | TagName::Picture
        | TagName::Source
        | TagName::Image
        | TagName::ListItem
        | TagName::TableHead
        | TagName::TableBody
        | TagName::TableRow
        | TagName::TableDataCell
        | TagName::TableHeader
        | TagName::Root => true,
        _ => false,
    }
}

/// The state that the content of `node` inherits, where `node` itself
/// inherits `st`.
pub open spec fn inner_state(node: HirNodeView, st: StateView) -> StateView {
    match node.tag {
        TagName::Paragraph | TagName::Div => st.set_align_from_attributes(node.attributes),
        TagName::Anchor => st.link(last_href(node.attributes, 0, st.text_options.link)),
        TagName::BlockQuote => st.quoted(),
        TagName::BoldOrStrong => st.bold(),
        TagName::Code => st.code(),
        TagName::EmphasisOrItalic => st.italic(),
        TagName::Header(level) => st.set_align_from_attributes(node.attributes).heading(level),
        TagName::PreformattedText => st.pre_formatted(),
        TagName::Small => st.small(),
        TagName::Span => StateView {
            span: styled_span(find_style(node.attributes, 0), 0, st.span),
            ..st
        },
        TagName::Strikethrough => st.strike_through(),
        TagName::Underline => st.underline(),
        _ => st,
    }
}

/// The flow after `node` has been opened, before its content is processed.
/// Block elements flush the current box and set up the new one; inline
/// elements leave the flow as it is.
pub open spec fn opened(node: HirNodeView, st: StateView, flow: Flow) -> Flow {
    match node.tag {
        TagName::Paragraph | TagName::Div => flow.flush(st).align(
            inner_state(node, st).text_options.align,
        ),
        TagName::Anchor => flow.with_box(
            TextBoxView {
                is_anchor: last_anchor(node.attributes, 0, flow.text_box.is_anchor),
                ..flow.text_box
            },
        ),
        TagName::BlockQuote | TagName::Break => flow.flush(st),
        TagName::HorizontalRuler => flow.flush(st).emit(
            ElementView::Spacer(Spacer { visible: true }),
        ),
        TagName::Header(level) => {
            let flushed = flow.flush(st).spacer().align(inner_state(node, st).text_options.align);
            flushed.with_box(
                TextBoxView {
                    font_size: heading_font_size(flushed.text_box.font_size, level),
                    ..flushed.text_box
                },
            )
        },
        TagName::Input => if has_checkbox(node.attributes) {
            flow.with_box(
                TextBoxView { is_checkbox: Some(has_checked(node.attributes)), ..flow.text_box },
            )
        } else {
            flow
        },
        TagName::PreformattedText => {
            let flushed = flow.flush(st);
            flushed.with_box(
                TextBoxView {
                    background_color: last_background(
                        find_style(node.attributes, 0),
                        0,
                        flushed.text_box.background_color,
                    ),
                    is_code_block: true,
                    ..flushed.text_box
                },
            )
        },
        _ => flow,
    }
}

/// The name that a heading is given when it is closed with the flow `flow`:
/// the anchor that the anchorizer makes of all the text in the current box.
/// The heading's box carries it after a number sign.
pub open spec fn heading_name(flow: Flow) -> Seq<char> {
    anchor_for(flow.taken, flow.text_box.chars())
}

/// The flow after `node` has been closed, where `inner` is the state that
/// its content inherited and `flow` is what processing the content left.
/// Block elements flush the current box; a heading first names it, with an
/// anchor made from all the text of the box.
pub open spec fn closed(node: HirNodeView, inner: StateView, flow: Flow) -> Flow {
    match node.tag {
        TagName::Paragraph | TagName::PreformattedText => flow.flush(inner).spacer(),
        TagName::Div => flow.flush(inner),
        TagName::BlockQuote => {
            let flushed = flow.flush(inner);
            if inner.global_indent == 1 {
                flushed.spacer()
            } else {
                flushed
            }
        },
        TagName::Header(_) => {
            let anchor = heading_name(flow);
            let named = Flow {
                text_box: TextBoxView { is_anchor: Some(seq!['#'] + anchor), ..flow.text_box },
                taken: flow.taken.insert(anchor),
                ..flow
            };
            named.flush(inner).spacer()
        },
        _ => flow,
    }
}

/// What processing node `index` adds to the flow. Lists and tables have
/// walkers of their own; some elements are passed over; every other element
/// is opened, has its content processed under the state it hands down, and
/// is closed.
#[verifier::opaque]
pub open spec fn flow_node(
    nodes: Seq<HirNodeView>,
    theme: Theme,
    index: int,
    st: StateView,
    flow: Flow,
) -> Flow
    decreases nodes.len() - index, nodes[index].content.len() + 2,
{
    if 0 <= index < nodes.len() {
        let node = nodes[index];
        match node.tag {
            TagName::OrderedList => flow_list(
                nodes,
                theme,
                index,
                Some(list_start(node.attributes, 0, 1)),
                st,
                flow,
            ),
            TagName::UnorderedList => flow_list(nodes, theme, index, None, st, flow),
            TagName::Table => flow.spacer().emit(
                ElementView::Table(
                    TableView { rows: table_rows(nodes, theme, index, 0, st, Seq::empty()) },
                ),
            ).spacer(),
            _ => if is_passed_over(node.tag) {
                flow
            } else {
                closed(
                    node,
                    inner_state(node, st),
                    flow_content(
                        nodes,
                        theme,
                        index,
                        0,
                        inner_state(node, st),
                        opened(node, st, flow),
                    ),
                )
            },
        }
    } else {
        flow
    }
}

/// What processing the content of node `owner`, from its item `i` on, adds to
/// the flow: text runs are composed into the current box, child nodes are
/// processed in turn.
#[verifier::opaque]
pub open spec fn flow_content(
    nodes: Seq<HirNodeView>,
    theme: Theme,
    owner: int,
    i: int,
    st: StateView,
    flow: Flow,
) -> Flow
    decreases nodes.len() - owner, nodes[owner].content.len() - i,
{
    if 0 <= owner < nodes.len() && 0 <= i < nodes[owner].content.len() {
        match nodes[owner].content[i] {
            TextOrHirNodeView::Text(s) => flow_content(
                nodes,
                theme,
                owner,
                i + 1,
                st,
                flow.text(s, theme, st),
            ),
            TextOrHirNodeView::Hir(c) => if owner < c < nodes.len() {
                flow_content(
                    nodes,
                    theme,
                    owner,
                    i + 1,
                    st,
                    flow_node(nodes, theme, c as int, st, flow),
                )
            } else {
                flow_content(nodes, theme, owner, i + 1, st, flow)
            },
        }
    } else {
        flow
    }
}

/// What processing the list at node `index` adds to the flow. `first` is the
/// number of the first item of an ordered list, and `None` for an unordered
/// list. A spacer follows a list that is not nested.
#[verifier::opaque]
pub open spec fn flow_list(
    nodes: Seq<HirNodeView>,
    theme: Theme,
    index: int,
    first: Option<nat>,
    st: StateView,
    flow: Flow,
) -> Flow
    decreases nodes.len() - index, nodes[index].content.len() + 1,
{
    if 0 <= index < nodes.len() {
        let inner = st.indented();
        let closed = flow_list_items(nodes, theme, index, 0, first, inner, flow.flush(st)).flush(
            inner,
        );
        if inner.global_indent == 1 {
            closed.spacer()
        } else {
            closed
        }
    } else {
        flow
    }
}

/// What the items of the list at node `owner`, from its content item `i` on,
/// add to the flow. Each list item takes the current number and hands on the
/// next; anything that is not a list item is passed over.
#[verifier::opaque]
pub open spec fn flow_list_items(
    nodes: Seq<HirNodeView>,
    theme: Theme,
    owner: int,
    i: int,
    number: Option<nat>,
    st: StateView,
    flow: Flow,
) -> Flow
    decreases nodes.len() - owner, nodes[owner].content.len() - i,
{
    if 0 <= owner < nodes.len() && 0 <= i < nodes[owner].content.len() {
        match nodes[owner].content[i] {
            TextOrHirNodeView::Hir(c) => if owner < c < nodes.len() && nodes[c as int].tag
                == TagName::ListItem {
                flow_list_items(
                    nodes,
                    theme,
                    owner,
                    i + 1,
                    match number {
                        Some(n) => Some(n + 1),
                        None => None,
                    },
                    st,
                    flow_list_item(nodes, theme, c as int, number, st, flow),
                )
            } else {
                flow_list_items(nodes, theme, owner, i + 1, number, st, flow)
            },
            TextOrHirNodeView::Text(_) => flow_list_items(
                nodes,
                theme,
                owner,
                i + 1,
                number,
                st,
                flow,
            ),
        }
    } else {
        flow
    }
}

/// The flow with which the content of the list item at node `index` is
/// processed: the item's prefix stands in the current box, in bold, unless
/// the item's first content item is a checkbox input.
pub open spec fn item_opened(
    nodes: Seq<HirNodeView>,
    theme: Theme,
    index: int,
    number: Option<nat>,
    flow: Flow,
) -> Flow {
    if first_child_is_checkbox(nodes, index) {
        flow
    } else {
        flow.with_box(
            flow.text_box.push(
                TextView { is_bold: true, ..TextView::new(list_prefix(number), theme.text_color) },
            ),
        )
    }
}

/// What the list item at node `index` adds to the flow: its prefix in bold,
/// unless its first content item is a checkbox input, then its content, and
/// a flush.
#[verifier::opaque]
pub open spec fn flow_list_item(
    nodes: Seq<HirNodeView>,
    theme: Theme,
    index: int,
    number: Option<nat>,
    st: StateView,
    flow: Flow,
) -> Flow
    decreases nodes.len() - index, nodes[index].content.len() + 1,
{
    if 0 <= index < nodes.len() {
        flow_content(
            nodes,
            theme,
            index,
            0,
            st,
            item_opened(nodes, theme, index, number, flow),
        ).flush(st)
    } else {
        flow
    }
}

/// The box of the table cell at node `index` after the text runs among its
/// content items from `i` on have been composed into `tb`. Content that is
/// not text is passed over.
pub open spec fn cell_texts(
    nodes: Seq<HirNodeView>,
    theme: Theme,
    index: int,
    i: int,
    st: StateView,
    tb: TextBoxView,
) -> TextBoxView
    decreases nodes[index].content.len() - i,
{
    if 0 <= index < nodes.len() && 0 <= i < nodes[index].content.len() {
        match nodes[index].content[i] {
            TextOrHirNodeView::Text(s) => cell_texts(
                nodes,
                theme,
                index,
                i + 1,
                st,
                compose_text(tb, s, theme, st),
            ),
            TextOrHirNodeView::Hir(_) => cell_texts(nodes, theme, index, i + 1, st, tb),
        }
    } else {
        tb
    }
}

/// The box of the table cell at node `index` under the state `st`, which
/// carries the cell's alignment: aligned as `st` says, bold in a header cell.
pub open spec fn cell_box(
    nodes: Seq<HirNodeView>,
    theme: Theme,
    index: int,
    header: bool,
    st: StateView,
) -> TextBoxView {
    let inner = if header {
        st.bold()
    } else {
        st
    };
    let empty = TextBoxView {
        align: match st.text_options.align {
            Some(a) => a,
            None => Align::Left,
        },
        ..TextBoxView::new(Seq::empty())
    };
    cell_texts(nodes, theme, index, 0, inner, empty)
}

/// The rows of a table after the cells among the content items of the row at
/// node `owner`, from item `i` on, have been appended to the last row. A cell
/// is aligned as its own attributes say, else as inherited.
pub open spec fn row_cells(
    nodes: Seq<HirNodeView>,
    theme: Theme,
    owner: int,
    i: int,
    st: StateView,
    rows: Seq<Seq<TextBoxView>>,
) -> Seq<Seq<TextBoxView>>
    decreases nodes[owner].content.len() - i,
{
    if 0 <= owner < nodes.len() && 0 <= i < nodes[owner].content.len() && rows.len() > 0 {
        match nodes[owner].content[i] {
            TextOrHirNodeView::Hir(c) => if c < nodes.len() && (nodes[c as int].tag
                == TagName::TableHeader || nodes[c as int].tag == TagName::TableDataCell) {
                let cell = cell_box(
                    nodes,
                    theme,
                    c as int,
                    nodes[c as int].tag == TagName::TableHeader,
                    st.set_align_from_attributes(nodes[c as int].attributes),
                );
                row_cells(
                    nodes,
                    theme,
                    owner,
                    i + 1,
                    st,
                    rows.update(rows.len() - 1, rows.last().push(cell)),
                )
            } else {
                row_cells(nodes, theme, owner, i + 1, st, rows)
            },
            TextOrHirNodeView::Text(_) => row_cells(nodes, theme, owner, i + 1, st, rows),
        }
    } else {
        rows
    }
}

/// The rows of a table after the rows among the content items of the head or
/// body at node `owner`, from item `i` on, have been appended.
pub open spec fn group_rows(
    nodes: Seq<HirNodeView>,
    theme: Theme,
    owner: int,
    i: int,
    st: StateView,
    rows: Seq<Seq<TextBoxView>>,
) -> Seq<Seq<TextBoxView>>
    decreases nodes[owner].content.len() - i,
{
    if 0 <= owner < nodes.len() && 0 <= i < nodes[owner].content.len() {
        match nodes[owner].content[i] {
            TextOrHirNodeView::Hir(c) => if c < nodes.len() && nodes[c as int].tag
                == TagName::TableRow {
                group_rows(
                    nodes,
                    theme,
                    owner,
                    i + 1,
                    st,
                    row_cells(nodes, theme, c as int, 0, st, rows.push(Seq::empty())),
                )
            } else {
                group_rows(nodes, theme, owner, i + 1, st, rows)
            },
            TextOrHirNodeView::Text(_) => group_rows(nodes, theme, owner, i + 1, st, rows),
        }
    } else {
        rows
    }
}

/// The rows of the table at node `owner` after the rows among its content
/// items from `i` on have been appended: each row that is a direct child, and
/// each row of a head or body that is a direct child.
pub open spec fn table_rows(
    nodes: Seq<HirNodeView>,
    theme: Theme,
    owner: int,
    i: int,
    st: StateView,
    rows: Seq<Seq<TextBoxView>>,
) -> Seq<Seq<TextBoxView>>
    decreases nodes[owner].content.len() - i,
{
    if 0 <= owner < nodes.len() && 0 <= i < nodes[owner].content.len() {
        match nodes[owner].content[i] {
            TextOrHirNodeView::Hir(c) => if c < nodes.len() && (nodes[c as int].tag
                == TagName::TableHead || nodes[c as int].tag == TagName::TableBody) {
                table_rows(
                    nodes,
                    theme,
                    owner,
                    i + 1,
                    st,
                    group_rows(nodes, theme, c as int, 0, st, rows),
                )
            } else if c < nodes.len() && nodes[c as int].tag == TagName::TableRow {
                table_rows(
                    nodes,
                    theme,
                    owner,
                    i + 1,
                    st,
                    row_cells(nodes, theme, c as int, 0, st, rows.push(Seq::empty())),
                )
            } else {
                table_rows(nodes, theme, owner, i + 1, st, rows)
            },
            TextOrHirNodeView::Text(_) => table_rows(nodes, theme, owner, i + 1, st, rows),
        }
    } else {
        rows
    }
}

/// The flow that the interpreter's three accumulators stand for.
pub open spec fn flow_of(output: Vec<Element>, text_box: TextBox, opts: AstOpts) -> Flow {
    Flow { output: output.deep_view(), text_box: text_box@, taken: issued(opts.anchorizer) }
}

/// Whether the indent and the quotation depth can still grow by one for
/// every node from `index` on: the walk below node `index` then stays within
/// the machine's integers.
pub open spec fn has_room(len: nat, index: nat, state: InheritedState) -> bool {
    &&& state.global_indent + (len - index) <= usize::MAX
    &&& state.text_options.block_quote + (len - index) <= usize::MAX
}

/// What one top-level element of a document gives, where the anchorizer has
/// handed out `taken` before: the element is processed from an empty box,
/// under the state at the root, and what is left in the box is flushed.
pub open spec fn flow_unit(
    nodes: Seq<HirNodeView>,
    theme: Theme,
    index: int,
    taken: Set<Seq<char>>,
) -> Flow {
    let st = StateView::with_span_color(theme.code_color);
    flow_node(nodes, theme, index, st, Flow::start(taken)).flush(st)
}

/// What the top-level elements of a document give, from the root's content
/// item `i` on: the output of each in document order, after `flow.output`.
/// Text that stands directly in the root gives nothing.
pub open spec fn flow_document(nodes: Seq<HirNodeView>, theme: Theme, i: int, flow: Flow) -> Flow
    decreases nodes[0].content.len() - i,
{
    if 0 < nodes.len() && 0 <= i < nodes[0].content.len() {
        match nodes[0].content[i] {
            TextOrHirNodeView::Hir(c) => if c < nodes.len() {
                let unit = flow_unit(nodes, theme, c as int, flow.taken);
                flow_document(
                    nodes,
                    theme,
                    i + 1,
                    Flow { output: flow.output + unit.output, taken: unit.taken, ..flow },
                )
            } else {
                flow_document(nodes, theme, i + 1, flow)
            },
            TextOrHirNodeView::Text(_) => flow_document(nodes, theme, i + 1, flow),
        }
    } else {
        flow
    }
}

/// How many headings are processed when node `index` is: each of them is
/// given an anchor.
pub open spec fn headings_node(nodes: Seq<HirNodeView>, index: int) -> nat
    decreases nodes.len() - index, nodes[index].content.len() + 1,
{
    if 0 <= index < nodes.len() {
        match nodes[index].tag {
            TagName::OrderedList | TagName::UnorderedList => headings_list_items(nodes, index, 0),
            TagName::Table => 0,
            TagName::Header(_) => headings_content(nodes, index, 0) + 1,
            tag => if is_passed_over(tag) {
                0
            } else {
                headings_content(nodes, index, 0)
            },
        }
    } else {
        0
    }
}

/// How many headings are processed when the content of node `owner` is, from
/// its item `i` on.
pub open spec fn headings_content(nodes: Seq<HirNodeView>, owner: int, i: int) -> nat
    decreases nodes.len() - owner, nodes[owner].content.len() - i,
{
    if 0 <= owner < nodes.len() && 0 <= i < nodes[owner].content.len() {
        match nodes[owner].content[i] {
            TextOrHirNodeView::Hir(c) => if owner < c < nodes.len() {
                headings_node(nodes, c as int) + headings_content(nodes, owner, i + 1)
            } else {
                headings_content(nodes, owner, i + 1)
            },
            TextOrHirNodeView::Text(_) => headings_content(nodes, owner, i + 1),
        }
    } else {
        0
    }
}

/// How many headings are processed when the items of the list at node
/// `owner` are, from its content item `i` on.
pub open spec fn headings_list_items(nodes: Seq<HirNodeView>, owner: int, i: int) -> nat
    decreases nodes.len() - owner, nodes[owner].content.len() - i,
{
    if 0 <= owner < nodes.len() && 0 <= i < nodes[owner].content.len() {
        match nodes[owner].content[i] {
            TextOrHirNodeView::Hir(c) => if owner < c < nodes.len() && nodes[c as int].tag
                == TagName::ListItem {
                headings_content(nodes, c as int, 0) + headings_list_items(nodes, owner, i + 1)
            } else {
                headings_list_items(nodes, owner, i + 1)
            },
            TextOrHirNodeView::Text(_) => headings_list_items(nodes, owner, i + 1),
        }
    } else {
        0
    }
}

/// How many headings are processed when the top-level elements of a
/// document are, from the root's content item `i` on.
pub open spec fn headings_document(nodes: Seq<HirNodeView>, i: int) -> nat
    decreases nodes[0].content.len() - i,
{
    if 0 < nodes.len() && 0 <= i < nodes[0].content.len() {
        match nodes[0].content[i] {
            TextOrHirNodeView::Hir(c) => if c < nodes.len() {
                headings_node(nodes, c as int) + headings_document(nodes, i + 1)
            } else {
                headings_document(nodes, i + 1)
            },
            TextOrHirNodeView::Text(_) => headings_document(nodes, i + 1),
        }
    } else {
        0
    }
}

/// Whether an anchorizer that had handed out `before` has since handed out
/// `n` more anchors, each of them new when it was handed out, and now has
/// handed out `after`: there are `n` anchors, no two of them the same and
/// none of them in `before`, that together with `before` make up `after`.
pub open spec fn handed_out(before: Set<Seq<char>>, after: Set<Seq<char>>, n: nat) -> bool {
    exists|names: Seq<Seq<char>>| #[trigger] are_new(names, before, after) && names.len() == n
}

/// Whether `names` are pairwise different anchors, none of them in `before`,
/// that together with `before` make up `after`.
pub open spec fn are_new(
    names: Seq<Seq<char>>,
    before: Set<Seq<char>>,
    after: Set<Seq<char>>,
) -> bool {
    &&& names.no_duplicates()
    &&& forall|i: int| 0 <= i < names.len() ==> !before.contains(#[trigger] names[i])
    &&& made_up(names, before, after)
}

/// Whether `after` holds what `before` holds and the anchors `names`, and
/// nothing else.
pub open spec fn made_up(
    names: Seq<Seq<char>>,
    before: Set<Seq<char>>,
    after: Set<Seq<char>>,
) -> bool {
    forall|name: Seq<char>|
        after.contains(name) <==> before.contains(name) || names.contains(name)
}

/// An anchorizer that has done nothing has handed out nothing more.
pub proof fn lemma_handed_out_none(before: Set<Seq<char>>)
    ensures
        handed_out(before, before, 0),
{
    assert(are_new(Seq::<Seq<char>>::empty(), before, before));
}

/// Handing out one anchor that is new is handing out one more.
pub proof fn lemma_handed_out_one(before: Set<Seq<char>>, name: Seq<char>)
    requires
        !before.contains(name),
    ensures
        handed_out(before, before.insert(name), 1),
{
    let names = seq![name];
    assert(names[0] == name);
    assert forall|other: Seq<char>|
        before.insert(name).contains(other) <==> before.contains(other) || names.contains(
            other,
        ) by {
        if names.contains(other) {
            let i = choose|i: int| 0 <= i < names.len() && names[i] == other;
            assert(other == name);
        }
    }
    assert(are_new(names, before, before.insert(name)));
}

/// What is handed out in two stretches is handed out in one: the anchors of
/// the second stretch are new with respect to those of the first, too.
pub proof fn lemma_handed_out_then(
    before: Set<Seq<char>>,
    between: Set<Seq<char>>,
    after: Set<Seq<char>>,
    m: nat,
    n: nat,
)
    requires
        handed_out(before, between, m),
        handed_out(between, after, n),
    ensures
        handed_out(before, after, m + n),
{
    let first = choose|names: Seq<Seq<char>>|
        #[trigger] are_new(names, before, between) && names.len() == m;
    let second = choose|names: Seq<Seq<char>>|
        #[trigger] are_new(names, between, after) && names.len() == n;
    let names = first + second;
    assert forall|i: int, j: int|
        0 <= i < names.len() && 0 <= j < names.len() && i != j implies names[i] != names[j] by {
        if i < m && j >= m {
            assert(first.contains(first[i]));
            assert(between.contains(names[i]));
            assert(!between.contains(second[j - m]));
        } else if j < m && i >= m {
            assert(first.contains(first[j]));
            assert(between.contains(names[j]));
            assert(!between.contains(second[i - m]));
        }
    }
    assert forall|i: int| 0 <= i < names.len() implies !before.contains(#[trigger] names[i]) by {
        if i >= m {
            assert(!between.contains(second[i - m]));
        }
    }
    assert forall|name: Seq<char>|
        after.contains(name) <==> before.contains(name) || names.contains(name) by {
        if first.contains(name) {
            let i = choose|i: int| 0 <= i < first.len() && first[i] == name;
            assert(names[i] == name);
        }
        if second.contains(name) {
            let i = choose|i: int| 0 <= i < second.len() && second[i] == name;
            assert(names[i + m] == name);
        }
        if names.contains(name) {
            let i = choose|i: int| 0 <= i < names.len() && names[i] == name;
            if i < m {
                assert(first[i] == name);
            } else {
                assert(second[i - m] == name);
            }
        }
    }
    assert(are_new(names, before, after));
}

} // verus!
