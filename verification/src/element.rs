//! The layout elements that the interpreter emits.

use crate::text::{TextBox, TextBoxView};
use vstd::prelude::*;

verus! {

/// A vertical gap. A visible spacer draws a rule, an invisible one only
/// separates what stands above it from what stands below.
#[derive(Clone, Copy, Debug, PartialEq, Eq, Structural)]
pub struct Spacer {
    pub visible: bool,
}

impl Spacer {
    /// A blank gap.
    pub fn invisible() -> (s: Spacer)
        ensures
            s == (Spacer { visible: false }),
    {
        Spacer { visible: false }
    }

    /// A gap that draws a rule.
    pub fn visible() -> (s: Spacer)
        ensures
            s == (Spacer { visible: true }),
    {
        Spacer { visible: true }
    }
}

/// A table: rows of cells, each cell a box.
#[derive(Clone, Debug)]
pub struct Table {
    pub rows: Vec<Vec<TextBox>>,
}

/// The mathematical value of a [`Table`].
pub struct TableView {
    pub rows: Seq<Seq<TextBoxView>>,
}

impl View for Table {
    type V = TableView;

    open spec fn view(&self) -> TableView {
        TableView { rows: self.rows.deep_view() }
    }
}

impl DeepView for Table {
    type V = TableView;

    open spec fn deep_view(&self) -> TableView {
        self@
    }
}

impl Table {
    /// A table without rows.
    pub fn new() -> (t: Table)
        ensures
            t@.rows == Seq::<Seq<TextBoxView>>::empty(),
    {
        let t = Table { rows: Vec::new() };
        assert(t@.rows =~= Seq::<Seq<TextBoxView>>::empty());
        t
    }
}

/// One element of the output.
#[derive(Clone, Debug)]
pub enum Element {
    TextBox(TextBox),
    Spacer(Spacer),
    Table(Table),
}

/// The mathematical value of an [`Element`].
pub enum ElementView {
    TextBox(TextBoxView),
    Spacer(Spacer),
    Table(TableView),
}

impl View for Element {
    type V = ElementView;

    open spec fn view(&self) -> ElementView {
        match self {
            Element::TextBox(b) => ElementView::TextBox(b@),
            Element::Spacer(s) => ElementView::Spacer(*s),
            Element::Table(t) => ElementView::Table(t@),
        }
    }
}

impl DeepView for Element {
    type V = ElementView;

    open spec fn deep_view(&self) -> ElementView {
        self@
    }
}

} // verus!
