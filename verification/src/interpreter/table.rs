//! The table walker.

use crate::element::{Element, ElementView, Spacer, Table, TableView};
use crate::interpreter::ast::AstOpts;
use crate::interpreter::attributes::get_node;
use crate::interpreter::compose::{push_element, push_spacer, text};
use crate::interpreter::hir::{arena_wf, HirNode, TextOrHirNode, TextOrHirNodeView};
use crate::interpreter::html::TagName;
use crate::interpreter::model::{cell_box, cell_texts, group_rows, row_cells, table_rows};
use crate::interpreter::state::InheritedState;
use crate::text::{lemma_deep_view_push, TextBox, TextBoxView, TextView};
use vstd::prelude::*;

verus! {

/// Composes a table cell.
pub struct TableCellProcess;

impl TableCellProcess {
    /// Appends the cell at node `index` to the last row of `table`. `state`
    /// carries the cell's alignment; `header` makes the cell bold. Only the
    /// text among the cell's content is composed.
    pub fn process(
        input: &[HirNode],
        opts: &AstOpts,
        table: &mut Table,
        header: bool,
        index: usize,
        state: &InheritedState,
    )
        requires
            index < input.len(),
            old(table).rows.len() > 0,
        ensures
            final(table)@.rows == old(table)@.rows.update(
                old(table)@.rows.len() - 1,
                old(table)@.rows.last().push(
                    cell_box(input.deep_view(), opts.theme, index as int, header, state@),
                ),
            ),
            final(table).rows.len() == old(table).rows.len(),
    {
        let ghost nodes = input.deep_view();
        let mut inner = state.clone();
        if header {
            inner.text_options.bold = true;
        }
        let node = get_node(input, index);
        let mut tb = TextBox::new(Vec::new());
        tb.set_align_or_default(inner.text_options.align);
        assert(tb@.texts =~= Seq::<TextView>::empty());
        let ghost empty = tb@;
        let mut i: usize = 0;
        while i < node.content.len()
            invariant
                i <= node.content.len(),
                index < input.len(),
                nodes == input.deep_view(),
                node@ == nodes[index as int],
                cell_texts(nodes, opts.theme, index as int, i as int, inner@, tb@) == cell_texts(
                    nodes,
                    opts.theme,
                    index as int,
                    0,
                    inner@,
                    empty,
                ),
            decreases node.content.len() - i,
        {
            if let TextOrHirNode::Text(s) = &node.content[i] {
                assert(nodes[index as int].content[i as int] == TextOrHirNodeView::Text(s@));
                text(&mut tb, s.as_str(), opts, &inner);
            } else {
                assert(nodes[index as int].content[i as int] is Hir);
            }
            i += 1;
        }
        let last = table.rows.len() - 1;
        let ghost rows0 = table.rows;
        table.rows[last].push(tb);
        assert(table.rows.deep_view() =~~= rows0.deep_view().update(
            last as int,
            rows0.deep_view()[last as int].push(tb@),
        )) by {
            lemma_deep_view_push(rows0[last as int], table.rows[last as int], tb);
        }
    }
}

/// Walks a table row.
pub struct TableRowProcess;

impl TableRowProcess {
    /// Appends the cells of the row at node `index` to the last row of `table`.
    pub fn process(
        input: &[HirNode],
        opts: &AstOpts,
        table: &mut Table,
        index: usize,
        state: &InheritedState,
    )
        requires
            index < input.len(),
            arena_wf(input.deep_view()),
            old(table).rows.len() > 0,
        ensures
            final(table)@.rows == row_cells(
                input.deep_view(),
                opts.theme,
                index as int,
                0,
                state@,
                old(table)@.rows,
            ),
    {
        let ghost nodes = input.deep_view();
        let ghost rows0 = table@.rows;
        let node = get_node(input, index);
        let mut i: usize = 0;
        while i < node.content.len()
            invariant
                i <= node.content.len(),
                index < input.len(),
                nodes == input.deep_view(),
                arena_wf(nodes),
                node@ == nodes[index as int],
                table.rows.len() > 0,
                row_cells(nodes, opts.theme, index as int, i as int, state@, table@.rows)
                    == row_cells(nodes, opts.theme, index as int, 0, state@, rows0),
            decreases node.content.len() - i,
        {
            if let TextOrHirNode::Hir(c) = &node.content[i] {
                assert(nodes[index as int].content[i as int] == TextOrHirNodeView::Hir(*c));
                let cell = get_node(input, *c);
                let mut aligned = state.clone();
                aligned.set_align_from_attributes(&cell.attributes);
                match cell.tag {
                    TagName::TableHeader => {
                        TableCellProcess::process(input, opts, table, true, *c, &aligned);
                    },
                    TagName::TableDataCell => {
                        TableCellProcess::process(input, opts, table, false, *c, &aligned);
                    },
                    _ => {},
                }
            } else {
                assert(nodes[index as int].content[i as int] is Text);
            }
            i += 1;
        }
    }
}

/// Walks the head or the body of a table.
pub struct TableHeadProcess;

impl TableHeadProcess {
    /// Appends the rows of the head or body at node `index` to `table`.
    pub fn process(
        input: &[HirNode],
        opts: &AstOpts,
        table: &mut Table,
        index: usize,
        state: &InheritedState,
    )
        requires
            index < input.len(),
            arena_wf(input.deep_view()),
        ensures
            final(table)@.rows == group_rows(
                input.deep_view(),
                opts.theme,
                index as int,
                0,
                state@,
                old(table)@.rows,
            ),
    {
        let ghost nodes = input.deep_view();
        let ghost rows0 = table@.rows;
        let node = get_node(input, index);
        let mut i: usize = 0;
        while i < node.content.len()
            invariant
                i <= node.content.len(),
                index < input.len(),
                nodes == input.deep_view(),
                arena_wf(nodes),
                node@ == nodes[index as int],
                group_rows(nodes, opts.theme, index as int, i as int, state@, table@.rows)
                    == group_rows(nodes, opts.theme, index as int, 0, state@, rows0),
            decreases node.content.len() - i,
        {
            if let TextOrHirNode::Hir(c) = &node.content[i] {
                assert(nodes[index as int].content[i as int] == TextOrHirNodeView::Hir(*c));
                if let TagName::TableRow = get_node(input, *c).tag {
                    push_row(table);
                    TableRowProcess::process(input, opts, table, *c, state);
                }
            } else {
                assert(nodes[index as int].content[i as int] is Text);
            }
            i += 1;
        }
    }
}

/// Appends an empty row to `table`.
fn push_row(table: &mut Table)
    ensures
        final(table)@.rows == old(table)@.rows.push(Seq::empty()),
        final(table).rows.len() > 0,
{
    let ghost rows0 = table.rows;
    let row: Vec<TextBox> = Vec::new();
    assert(row.deep_view() =~= Seq::<TextBoxView>::empty());
    table.rows.push(row);
    proof {
        lemma_deep_view_push(rows0, table.rows, row);
    }
}

/// Walks a table.
pub struct TableProcess;

impl TableProcess {
    /// Emits the table at node `index`, between two spacers.
    pub fn process(
        input: &[HirNode],
        output: &mut Vec<Element>,
        opts: &AstOpts,
        index: usize,
        state: &InheritedState,
    )
        requires
            index < input.len(),
            arena_wf(input.deep_view()),
        ensures
            final(output).deep_view() == old(output).deep_view().push(
                ElementView::Spacer(Spacer { visible: false }),
            ).push(
                ElementView::Table(
                    TableView {
                        rows: table_rows(
                            input.deep_view(),
                            opts.theme,
                            index as int,
                            0,
                            state@,
                            Seq::empty(),
                        ),
                    },
                ),
            ).push(ElementView::Spacer(Spacer { visible: false })),
    {
        let ghost nodes = input.deep_view();
        let mut table = Table::new();
        let node = get_node(input, index);
        let mut i: usize = 0;
        while i < node.content.len()
            invariant
                i <= node.content.len(),
                index < input.len(),
                nodes == input.deep_view(),
                arena_wf(nodes),
                node@ == nodes[index as int],
                table_rows(nodes, opts.theme, index as int, i as int, state@, table@.rows)
                    == table_rows(nodes, opts.theme, index as int, 0, state@, Seq::empty()),
            decreases node.content.len() - i,
        {
            if let TextOrHirNode::Hir(c) = &node.content[i] {
                assert(nodes[index as int].content[i as int] == TextOrHirNodeView::Hir(*c));
                match get_node(input, *c).tag {
                    TagName::TableHead | TagName::TableBody => {
                        TableHeadProcess::process(input, opts, &mut table, *c, state);
                    },
                    TagName::TableRow => {
                        push_row(&mut table);
                        TableRowProcess::process(input, opts, &mut table, *c, state);
                    },
                    _ => {},
                }
            } else {
                assert(nodes[index as int].content[i as int] is Text);
            }
            i += 1;
        }
        push_spacer(output);
        push_element(output, Element::Table(table));
        push_spacer(output);
    }
}

} // verus!
