//! The inherited formatting state that is handed down the tree.

use crate::interpreter::html::{
    align_of, find_align, Align, Attr, AttrView, FontStyle, FontWeight, HeaderType,
    TextDecoration,
};
use crate::text::opt_chars;
use vstd::prelude::*;

verus! {

/// The style of inline code: what a `span` inside a code block sets.
#[derive(Clone, Copy, Debug, PartialEq, Eq, Structural)]
pub struct Span {
    pub color: u32,
    pub weight: FontWeight,
    pub style: FontStyle,
    pub decor: TextDecoration,
}

impl Span {
    /// A plain span of the given color.
    pub fn with_color(color: u32) -> (span: Span)
        ensures
            span == (Span {
                color,
                weight: FontWeight::Normal,
                style: FontStyle::Normal,
                decor: TextDecoration::Normal,
            }),
    {
        Span {
            color,
            weight: FontWeight::Normal,
            style: FontStyle::Normal,
            decor: TextDecoration::Normal,
        }
    }
}

/// The formatting that text inherits from the elements around it.
#[derive(Debug)]
pub struct TextOptions {
    pub underline: bool,
    pub bold: bool,
    pub italic: bool,
    pub strike_through: bool,
    pub small: bool,
    pub code: bool,
    pub pre_formatted: bool,
    /// How many quotations enclose the text.
    pub block_quote: usize,
    pub align: Option<Align>,
    /// The target of the link that encloses the text.
    pub link: Option<String>,
}

/// The mathematical value of [`TextOptions`].
pub struct TextOptionsView {
    pub underline: bool,
    pub bold: bool,
    pub italic: bool,
    pub strike_through: bool,
    pub small: bool,
    pub code: bool,
    pub pre_formatted: bool,
    pub block_quote: nat,
    pub align: Option<Align>,
    pub link: Option<Seq<char>>,
}

impl View for TextOptions {
    type V = TextOptionsView;

    open spec fn view(&self) -> TextOptionsView {
        TextOptionsView {
            underline: self.underline,
            bold: self.bold,
            italic: self.italic,
            strike_through: self.strike_through,
            small: self.small,
            code: self.code,
            pre_formatted: self.pre_formatted,
            block_quote: self.block_quote as nat,
            align: self.align,
            link: opt_chars(self.link),
        }
    }
}

impl Clone for TextOptions {
    fn clone(&self) -> (copy: Self)
        ensures
            copy@ == self@,
    {
        TextOptions {
            underline: self.underline,
            bold: self.bold,
            italic: self.italic,
            strike_through: self.strike_through,
            small: self.small,
            code: self.code,
            pre_formatted: self.pre_formatted,
            block_quote: self.block_quote,
            align: self.align,
            link: match &self.link {
                Some(l) => Some(l.clone()),
                None => None,
            },
        }
    }
}

/// The cascade: what an element hands down to its content. A callee works on
/// a copy, so that nothing leaks from one branch of the tree into another.
#[derive(Debug)]
pub struct InheritedState {
    /// The left margin of boxes, counted in half margins.
    pub global_indent: usize,
    pub text_options: TextOptions,
    pub span: Span,
}

/// The mathematical value of an [`InheritedState`].
pub struct StateView {
    pub global_indent: nat,
    pub text_options: TextOptionsView,
    pub span: Span,
}

impl StateView {
    /// The state at the root of a document whose inline code has `color`.
    pub open spec fn with_span_color(color: u32) -> StateView {
        StateView {
            global_indent: 0,
            text_options: TextOptionsView {
                underline: false,
                bold: false,
                italic: false,
                strike_through: false,
                small: false,
                code: false,
                pre_formatted: false,
                block_quote: 0,
                align: None,
                link: None,
            },
            span: Span {
                color,
                weight: FontWeight::Normal,
                style: FontStyle::Normal,
                decor: TextDecoration::Normal,
            },
        }
    }

    /// The state with `align` in force, where it names an alignment.
    pub open spec fn set_align(self, align: Option<Align>) -> StateView {
        StateView {
            text_options: TextOptionsView {
                align: match align {
                    Some(a) => Some(a),
                    None => self.text_options.align,
                },
                ..self.text_options
            },
            ..self
        }
    }

    /// The state with the alignment that `attrs` ask for, if they ask for one.
    pub open spec fn set_align_from_attributes(self, attrs: Seq<AttrView>) -> StateView {
        self.set_align(find_align(attrs, 0))
    }
}

impl View for InheritedState {
    type V = StateView;

    open spec fn view(&self) -> StateView {
        StateView {
            global_indent: self.global_indent as nat,
            text_options: self.text_options@,
            span: self.span,
        }
    }
}

impl Clone for InheritedState {
    fn clone(&self) -> (copy: Self)
        ensures
            copy@ == self@,
    {
        InheritedState {
            global_indent: self.global_indent,
            text_options: self.text_options.clone(),
            span: self.span,
        }
    }
}

impl InheritedState {
    /// The state at the root of a document whose inline code has `span_color`.
    pub fn with_span_color(span_color: u32) -> (state: InheritedState)
        ensures
            state@ == StateView::with_span_color(span_color),
    {
        InheritedState {
            global_indent: 0,
            text_options: TextOptions {
                underline: false,
                bold: false,
                italic: false,
                strike_through: false,
                small: false,
                code: false,
                pre_formatted: false,
                block_quote: 0,
                align: None,
                link: None,
            },
            span: Span::with_color(span_color),
        }
    }

    /// Puts `align` in force, where it names an alignment.
    pub fn set_align(&mut self, align: Option<Align>)
        ensures
            final(self)@ == old(self)@.set_align(align),
    {
        if let Some(a) = align {
            self.text_options.align = Some(a);
        }
    }

    /// Puts the alignment in force that `attributes` ask for, if they ask for one.
    pub fn set_align_from_attributes(&mut self, attributes: &Vec<Attr>)
        ensures
            final(self)@ == old(self)@.set_align_from_attributes(attributes.deep_view()),
    {
        self.set_align(align_of(attributes));
    }
}

impl StateView {
    /// The state with bold switched on.
    pub open spec fn bold(self) -> StateView {
        StateView { text_options: TextOptionsView { bold: true, ..self.text_options }, ..self }
    }

    /// The state with italic switched on.
    pub open spec fn italic(self) -> StateView {
        StateView { text_options: TextOptionsView { italic: true, ..self.text_options }, ..self }
    }

    /// The state with underline switched on.
    pub open spec fn underline(self) -> StateView {
        StateView { text_options: TextOptionsView { underline: true, ..self.text_options }, ..self }
    }

    /// The state with strikethrough switched on.
    pub open spec fn strike_through(self) -> StateView {
        StateView {
            text_options: TextOptionsView { strike_through: true, ..self.text_options },
            ..self
        }
    }

    /// The state with small print switched on.
    pub open spec fn small(self) -> StateView {
        StateView { text_options: TextOptionsView { small: true, ..self.text_options }, ..self }
    }

    /// The state with inline code switched on.
    pub open spec fn code(self) -> StateView {
        StateView { text_options: TextOptionsView { code: true, ..self.text_options }, ..self }
    }

    /// The state with preformatted text switched on.
    pub open spec fn pre_formatted(self) -> StateView {
        StateView {
            text_options: TextOptionsView { pre_formatted: true, ..self.text_options },
            ..self
        }
    }

    /// The state with `target` as the target of the enclosing link.
    pub open spec fn link(self, target: Option<Seq<char>>) -> StateView {
        StateView { text_options: TextOptionsView { link: target, ..self.text_options }, ..self }
    }

    /// One half margin further in.
    pub open spec fn indented(self) -> StateView {
        StateView { global_indent: self.global_indent + 1, ..self }
    }

    /// One quotation deeper, and one half margin further in.
    pub open spec fn quoted(self) -> StateView {
        StateView {
            global_indent: self.global_indent + 1,
            text_options: TextOptionsView {
                block_quote: self.text_options.block_quote + 1,
                ..self.text_options
            },
            ..self
        }
    }

    /// The state inside a heading: bold, and underlined at the first level.
    pub open spec fn heading(self, level: HeaderType) -> StateView {
        if level == HeaderType::H1 {
            self.bold().underline()
        } else {
            self.bold()
        }
    }
}

} // verus!
