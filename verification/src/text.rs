//! Styled text fragments and the boxes that collect them.

use crate::interpreter::html::Align;
use vstd::prelude::*;

verus! {

/// The font size of a fresh box, in hundredths of a point.
pub const DEFAULT_FONT_SIZE: u32 = 1600;

/// The font size of a box that holds small print, in hundredths of a point.
pub const SMALL_FONT_SIZE: u32 = 1200;

/// The view of an optional string.
pub open spec fn opt_chars(s: Option<String>) -> Option<Seq<char>> {
    match s {
        Some(s) => Some(s@),
        None => None,
    }
}

/// The family of a font.
#[derive(Clone, Copy, Debug, PartialEq, Eq, Structural)]
pub enum FontFamily {
    SansSerif,
    Monospace,
}

/// One run of text that shares a single style. Colors are `0xRRGGBB`.
#[derive(Clone, Debug)]
pub struct Text {
    pub text: String,
    /// The color set on this fragment, if any; otherwise `default_color` applies.
    pub color: Option<u32>,
    pub link: Option<String>,
    pub is_bold: bool,
    pub is_italic: bool,
    pub is_underlined: bool,
    pub is_striked: bool,
    pub font_family: FontFamily,
    pub default_color: u32,
}

/// The mathematical value of a [`Text`].
pub struct TextView {
    pub text: Seq<char>,
    pub color: Option<u32>,
    pub link: Option<Seq<char>>,
    pub is_bold: bool,
    pub is_italic: bool,
    pub is_underlined: bool,
    pub is_striked: bool,
    pub font_family: FontFamily,
    pub default_color: u32,
}

impl TextView {
    /// A plain fragment in the default color.
    pub open spec fn new(text: Seq<char>, default_color: u32) -> TextView {
        TextView {
            text,
            color: None,
            link: None,
            is_bold: false,
            is_italic: false,
            is_underlined: false,
            is_striked: false,
            font_family: FontFamily::SansSerif,
            default_color,
        }
    }

    /// The color in which the fragment is drawn.
    pub open spec fn shown_color(self) -> u32 {
        match self.color {
            Some(c) => c,
            None => self.default_color,
        }
    }
}

impl View for Text {
    type V = TextView;

    open spec fn view(&self) -> TextView {
        TextView {
            text: self.text@,
            color: self.color,
            link: opt_chars(self.link),
            is_bold: self.is_bold,
            is_italic: self.is_italic,
            is_underlined: self.is_underlined,
            is_striked: self.is_striked,
            font_family: self.font_family,
            default_color: self.default_color,
        }
    }
}

impl DeepView for Text {
    type V = TextView;

    open spec fn deep_view(&self) -> TextView {
        self@
    }
}

impl Text {
    /// A plain fragment in the default color.
    pub fn new(text: String, default_color: u32) -> (t: Text)
        ensures
            t@ == TextView::new(text@, default_color),
    {
        Text {
            text,
            color: None,
            link: None,
            is_bold: false,
            is_italic: false,
            is_underlined: false,
            is_striked: false,
            font_family: FontFamily::SansSerif,
            default_color,
        }
    }

    /// The fragment in the given color.
    pub fn with_color(self, color: u32) -> (t: Text)
        ensures
            t@ == (TextView { color: Some(color), ..self@ }),
    {
        let mut t = self;
        t.color = Some(color);
        t
    }

    /// The fragment as a link to the given target.
    pub fn with_link(self, link: String) -> (t: Text)
        ensures
            t@ == (TextView { link: Some(link@), ..self@ }),
    {
        let mut t = self;
        t.link = Some(link);
        t
    }

    /// The fragment in the given font family.
    pub fn with_family(self, font_family: FontFamily) -> (t: Text)
        ensures
            t@ == (TextView { font_family, ..self@ }),
    {
        let mut t = self;
        t.font_family = font_family;
        t
    }

    /// The fragment with bold switched on or off.
    pub fn make_bold(self, bold: bool) -> (t: Text)
        ensures
            t@ == (TextView { is_bold: bold, ..self@ }),
    {
        let mut t = self;
        t.is_bold = bold;
        t
    }

    /// The fragment with italic switched on or off.
    pub fn make_italic(self, italic: bool) -> (t: Text)
        ensures
            t@ == (TextView { is_italic: italic, ..self@ }),
    {
        let mut t = self;
        t.is_italic = italic;
        t
    }

    /// The fragment with underline switched on or off.
    pub fn make_underlined(self, underlined: bool) -> (t: Text)
        ensures
            t@ == (TextView { is_underlined: underlined, ..self@ }),
    {
        let mut t = self;
        t.is_underlined = underlined;
        t
    }

    /// The fragment with strikethrough switched on or off.
    pub fn make_striked(self, striked: bool) -> (t: Text)
        ensures
            t@ == (TextView { is_striked: striked, ..self@ }),
    {
        let mut t = self;
        t.is_striked = striked;
        t
    }

    /// The color in which the fragment is drawn.
    pub fn shown_color(&self) -> (c: u32)
        ensures
            c == self@.shown_color(),
    {
        match self.color {
            Some(c) => c,
            None => self.default_color,
        }
    }
}

/// A box of text fragments that are laid out together.
#[derive(Clone, Debug)]
pub struct TextBox {
    pub texts: Vec<Text>,
    /// The left margin, counted in half margins.
    pub indent: usize,
    /// The font size, in hundredths of a point.
    pub font_size: u32,
    pub align: Align,
    pub is_code_block: bool,
    /// The depth of the quotation that the box stands in, if it stands in one.
    pub is_quote_block: Option<usize>,
    /// Whether the box starts with a checkbox, and whether that is ticked.
    pub is_checkbox: Option<bool>,
    pub is_anchor: Option<String>,
    pub background_color: Option<u32>,
}

/// The mathematical value of a [`TextBox`].
pub struct TextBoxView {
    pub texts: Seq<TextView>,
    pub indent: nat,
    pub font_size: nat,
    pub align: Align,
    pub is_code_block: bool,
    pub is_quote_block: Option<nat>,
    pub is_checkbox: Option<bool>,
    pub is_anchor: Option<Seq<char>>,
    pub background_color: Option<u32>,
}

impl TextBoxView {
    /// A box with the given fragments and every property at its default.
    pub open spec fn new(texts: Seq<TextView>) -> TextBoxView {
        TextBoxView {
            texts,
            indent: 0,
            font_size: DEFAULT_FONT_SIZE as nat,
            align: Align::Left,
            is_code_block: false,
            is_quote_block: None,
            is_checkbox: None,
            is_anchor: None,
            background_color: None,
        }
    }

    /// The box with one more fragment at its end.
    pub open spec fn push(self, text: TextView) -> TextBoxView {
        TextBoxView { texts: self.texts.push(text), ..self }
    }

    /// Whether some fragment of the box holds at least one character.
    pub open spec fn has_content(self) -> bool {
        exists|i: int| 0 <= i < self.texts.len() && (#[trigger] self.texts[i]).text.len() > 0
    }

    /// The characters of the fragments from `i` on, in order.
    pub open spec fn chars_from(self, i: int) -> Seq<char>
        decreases self.texts.len() - i,
    {
        if 0 <= i < self.texts.len() {
            self.texts[i].text + self.chars_from(i + 1)
        } else {
            Seq::empty()
        }
    }

    /// All characters of the box, in order.
    pub open spec fn chars(self) -> Seq<char> {
        self.chars_from(0)
    }
}

impl View for TextBox {
    type V = TextBoxView;

    open spec fn view(&self) -> TextBoxView {
        TextBoxView {
            texts: self.texts.deep_view(),
            indent: self.indent as nat,
            font_size: self.font_size as nat,
            align: self.align,
            is_code_block: self.is_code_block,
            is_quote_block: match self.is_quote_block {
                Some(d) => Some(d as nat),
                None => None,
            },
            is_checkbox: self.is_checkbox,
            is_anchor: opt_chars(self.is_anchor),
            background_color: self.background_color,
        }
    }
}

impl DeepView for TextBox {
    type V = TextBoxView;

    open spec fn deep_view(&self) -> TextBoxView {
        self@
    }
}

/// Pushing onto a vector pushes onto its deep view.
pub proof fn lemma_deep_view_push<T: DeepView>(before: Vec<T>, after: Vec<T>, x: T)
    requires
        after@ == before@.push(x),
    ensures
        after.deep_view() == before.deep_view().push(x.deep_view()),
{
    assert(after.deep_view() =~= before.deep_view().push(x.deep_view()));
}

impl TextBox {
    /// A box with the given fragments and every property at its default.
    pub fn new(texts: Vec<Text>) -> (b: TextBox)
        ensures
            b@ == TextBoxView::new(texts.deep_view()),
    {
        TextBox {
            texts,
            indent: 0,
            font_size: DEFAULT_FONT_SIZE,
            align: Align::Left,
            is_code_block: false,
            is_quote_block: None,
            is_checkbox: None,
            is_anchor: None,
            background_color: None,
        }
    }

    /// Appends a fragment.
    pub fn push(&mut self, text: Text)
        ensures
            final(self)@ == old(self)@.push(text@),
    {
        let ghost before = self.texts;
        self.texts.push(text);
        proof {
            lemma_deep_view_push(before, self.texts, text);
        }
    }

    /// Aligns the box as `align` says, to the left if it says nothing.
    pub fn set_align_or_default(&mut self, align: Option<Align>)
        ensures
            final(self)@ == (TextBoxView {
                align: match align {
                    Some(a) => a,
                    None => Align::Left,
                },
                ..old(self)@
            }),
    {
        self.align = match align {
            Some(a) => a,
            None => Align::Left,
        };
    }

    /// Says whether the box is a block of code.
    pub fn set_code_block(&mut self, is_code_block: bool)
        ensures
            final(self)@ == (TextBoxView { is_code_block, ..old(self)@ }),
    {
        self.is_code_block = is_code_block;
    }

    /// Puts the box in a quotation of the given depth.
    pub fn set_quote_block(&mut self, depth: usize)
        ensures
            final(self)@ == (TextBoxView { is_quote_block: Some(depth as nat), ..old(self)@ }),
    {
        self.is_quote_block = Some(depth);
    }

    /// Says whether the box starts with a checkbox, and whether that is ticked.
    pub fn set_checkbox(&mut self, is_checkbox: Option<bool>)
        ensures
            final(self)@ == (TextBoxView { is_checkbox, ..old(self)@ }),
    {
        self.is_checkbox = is_checkbox;
    }

    /// Names the box.
    pub fn set_anchor(&mut self, anchor: String)
        ensures
            final(self)@ == (TextBoxView { is_anchor: Some(anchor@), ..old(self)@ }),
    {
        self.is_anchor = Some(anchor);
    }

    /// Gives the box a background.
    pub fn set_background_color(&mut self, color: u32)
        ensures
            final(self)@ == (TextBoxView { background_color: Some(color), ..old(self)@ }),
    {
        self.background_color = Some(color);
    }

    /// Whether some fragment of the box holds at least one character.
    pub fn has_content(&self) -> (b: bool)
        ensures
            b == self@.has_content(),
    {
        let mut i: usize = 0;
        while i < self.texts.len()
            invariant
                i <= self.texts.len(),
                forall|j: int| 0 <= j < i ==> (#[trigger] self@.texts[j]).text.len() == 0,
            decreases self.texts.len() - i,
        {
            if !self.texts[i].text.as_str().is_empty() {
                assert(self@.texts[i as int].text.len() > 0);
                return true;
            }
            i += 1;
        }
        false
    }

    /// All characters of the box, in order.
    pub fn chars(&self) -> (s: String)
        ensures
            s@ == self@.chars(),
    {
        let mut s = String::new();
        let mut i: usize = self.texts.len();
        assert(self@.chars_from(i as int) =~= Seq::<char>::empty());
        while i > 0
            invariant
                i <= self.texts.len(),
                s@ == self@.chars_from(i as int),
            decreases i,
        {
            i -= 1;
            let mut head = self.texts[i].text.clone();
            head.append(s.as_str());
            s = head;
        }
        s
    }
}

} // verus!
