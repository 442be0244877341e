//! The tag vocabulary: the closed set of tag kinds and of parsed attributes.

use crate::chars::same_chars;
use vstd::prelude::*;

verus! {

/// The six heading levels.
#[derive(Clone, Copy, Debug, PartialEq, Eq, Structural)]
pub enum HeaderType {
    H1,
    H2,
    H3,
    H4,
    H5,
    H6,
}

impl HeaderType {
    /// The factor, in percent, by which a heading of this level scales the font
    /// size of its box.
    pub open spec fn spec_size_multiplier(self) -> nat {
        match self {
            HeaderType::H1 => 200,
            HeaderType::H2 => 150,
            HeaderType::H3 => 117,
            HeaderType::H4 => 100,
            HeaderType::H5 => 83,
            HeaderType::H6 => 67,
        }
    }

    /// The factor, in percent, by which a heading of this level scales the font
    /// size of its box.
    pub fn size_multiplier(self) -> (percent: u32)
        ensures
            percent == self.spec_size_multiplier(),
    {
        match self {
            HeaderType::H1 => 200,
            HeaderType::H2 => 150,
            HeaderType::H3 => 117,
            HeaderType::H4 => 100,
            HeaderType::H5 => 83,
            HeaderType::H6 => 67,
        }
    }
}

/// The recognized tag kinds.
#[derive(Clone, Copy, Debug, PartialEq, Eq, Structural)]
pub enum TagName {
    Anchor,
    BlockQuote,
    BoldOrStrong,
    Break,
    Code,
    Details,
    Div,
    EmphasisOrItalic,
    Header(HeaderType),
    HorizontalRuler,
    Image,
    Input,
    ListItem,
    OrderedList,
    Paragraph,
    Picture,
    PreformattedText,
    Root,
    Section,
    Small,
    Source,
    Span,
    Strikethrough,
    Summary,
    Table,
    TableBody,
    TableDataCell,
    TableHead,
    TableHeader,
    TableRow,
    Underline,
    UnorderedList,
}

/// The tag kind that a raw tag name stands for, if it is a recognized one.
/// No name stands for [`TagName::Root`].
pub open spec fn tag_of_name(name: Seq<char>) -> Option<TagName> {
    if name == "a"@ {
        Some(TagName::Anchor)
    } else if name == "blockquote"@ {
        Some(TagName::BlockQuote)
    } else if name == "b"@ || name == "strong"@ {
        Some(TagName::BoldOrStrong)
    } else if name == "br"@ {
        Some(TagName::Break)
    } else if name == "code"@ {
        Some(TagName::Code)
    } else if name == "details"@ {
        Some(TagName::Details)
    } else if name == "div"@ {
        Some(TagName::Div)
    } else if name == "em"@ || name == "i"@ {
        Some(TagName::EmphasisOrItalic)
    } else if name == "h1"@ {
        Some(TagName::Header(HeaderType::H1))
    } else if name == "h2"@ {
        Some(TagName::Header(HeaderType::H2))
    } else if name == "h3"@ {
        Some(TagName::Header(HeaderType::H3))
    } else if name == "h4"@ {
        Some(TagName::Header(HeaderType::H4))
    } else if name == "h5"@ {
        Some(TagName::Header(HeaderType::H5))
    } else if name == "h6"@ {
        Some(TagName::Header(HeaderType::H6))
    } else if name == "hr"@ {
        Some(TagName::HorizontalRuler)
    } else if name == "img"@ {
        Some(TagName::Image)
    } else if name == "input"@ {
        Some(TagName::Input)
    } else if name == "li"@ {
        Some(TagName::ListItem)
    } else if name == "ol"@ {
        Some(TagName::OrderedList)
    } else if name == "p"@ {
        Some(TagName::Paragraph)
    } else if name == "picture"@ {
        Some(TagName::Picture)
    } else if name == "pre"@ {
        Some(TagName::PreformattedText)
    } else if name == "section"@ {
        Some(TagName::Section)
    } else if name == "small"@ {
        Some(TagName::Small)
    } else if name == "source"@ {
        Some(TagName::Source)
    } else if name == "span"@ {
        Some(TagName::Span)
    } else if name == "s"@ || name == "del"@ {
        Some(TagName::Strikethrough)
    } else if name == "summary"@ {
        Some(TagName::Summary)
    } else if name == "table"@ {
        Some(TagName::Table)
    } else if name == "tbody"@ {
        Some(TagName::TableBody)
    } else if name == "td"@ {
        Some(TagName::TableDataCell)
    } else if name == "thead"@ {
        Some(TagName::TableHead)
    } else if name == "th"@ {
        Some(TagName::TableHeader)
    } else if name == "tr"@ {
        Some(TagName::TableRow)
    } else if name == "u"@ || name == "ins"@ {
        Some(TagName::Underline)
    } else if name == "ul"@ {
        Some(TagName::UnorderedList)
    } else {
        None
    }
}

impl TagName {
    /// Whether elements of this kind never have content, so that a start tag
    /// opens nothing and an end tag closes nothing.
    pub open spec fn spec_is_void(self) -> bool {
        match self {
            TagName::Break
            | TagName::HorizontalRuler
            | TagName::Image
            | TagName::Input
            | TagName::Source => true,
            _ => false,
        }
    }

    /// Whether elements of this kind never have content.
    #[verifier::when_used_as_spec(spec_is_void)]
    pub fn is_void(self) -> (b: bool)
        ensures
            b == self.spec_is_void(),
    {
        match self {
            TagName::Break
            | TagName::HorizontalRuler
            | TagName::Image
            | TagName::Input
            | TagName::Source => true,
            _ => false,
        }
    }

    /// Resolves a raw tag name. Names are matched exactly, in lower case.
    pub fn from_name(name: &str) -> (tag: Option<TagName>)
        ensures
            tag == tag_of_name(name@),
    {
        if same_chars(name, "a") {
            Some(TagName::Anchor)
        } else if same_chars(name, "blockquote") {
            Some(TagName::BlockQuote)
        } else if same_chars(name, "b") || same_chars(name, "strong") {
            Some(TagName::BoldOrStrong)
        } else if same_chars(name, "br") {
            Some(TagName::Break)
        } else if same_chars(name, "code") {
            Some(TagName::Code)
        } else if same_chars(name, "details") {
            Some(TagName::Details)
        } else if same_chars(name, "div") {
            Some(TagName::Div)
        } else if same_chars(name, "em") || same_chars(name, "i") {
            Some(TagName::EmphasisOrItalic)
        } else if same_chars(name, "h1") {
            Some(TagName::Header(HeaderType::H1))
        } else if same_chars(name, "h2") {
            Some(TagName::Header(HeaderType::H2))
        } else if same_chars(name, "h3") {
            Some(TagName::Header(HeaderType::H3))
        } else if same_chars(name, "h4") {
            Some(TagName::Header(HeaderType::H4))
        } else if same_chars(name, "h5") {
            Some(TagName::Header(HeaderType::H5))
        } else if same_chars(name, "h6") {
            Some(TagName::Header(HeaderType::H6))
        } else if same_chars(name, "hr") {
            Some(TagName::HorizontalRuler)
        } else if same_chars(name, "img") {
            Some(TagName::Image)
        } else if same_chars(name, "input") {
            Some(TagName::Input)
        } else if same_chars(name, "li") {
            Some(TagName::ListItem)
        } else if same_chars(name, "ol") {
            Some(TagName::OrderedList)
        } else if same_chars(name, "p") {
            Some(TagName::Paragraph)
        } else if same_chars(name, "picture") {
            Some(TagName::Picture)
        } else if same_chars(name, "pre") {
            Some(TagName::PreformattedText)
        } else if same_chars(name, "section") {
            Some(TagName::Section)
        } else if same_chars(name, "small") {
            Some(TagName::Small)
        } else if same_chars(name, "source") {
            Some(TagName::Source)
        } else if same_chars(name, "span") {
            Some(TagName::Span)
        } else if same_chars(name, "s") || same_chars(name, "del") {
            Some(TagName::Strikethrough)
        } else if same_chars(name, "summary") {
            Some(TagName::Summary)
        } else if same_chars(name, "table") {
            Some(TagName::Table)
        } else if same_chars(name, "tbody") {
            Some(TagName::TableBody)
        } else if same_chars(name, "td") {
            Some(TagName::TableDataCell)
        } else if same_chars(name, "thead") {
            Some(TagName::TableHead)
        } else if same_chars(name, "th") {
            Some(TagName::TableHeader)
        } else if same_chars(name, "tr") {
            Some(TagName::TableRow)
        } else if same_chars(name, "u") || same_chars(name, "ins") {
            Some(TagName::Underline)
        } else if same_chars(name, "ul") {
            Some(TagName::UnorderedList)
        } else {
            None
        }
    }
}

/// No raw tag name resolves to the synthetic root.
pub proof fn lemma_no_name_for_root(name: Seq<char>)
    ensures
        tag_of_name(name) != Some(TagName::Root),
{
}

/// Horizontal alignment of a box.
#[derive(Clone, Copy, Debug, PartialEq, Eq, Structural)]
pub enum Align {
    Left,
    Center,
    Right,
}

impl Default for Align {
    fn default() -> (align: Self)
        ensures
            align == Align::Left,
    {
        Align::Left
    }
}

/// The weight of a font.
#[derive(Clone, Copy, Debug, PartialEq, Eq, Structural)]
pub enum FontWeight {
    Normal,
    Bold,
}

/// The slant of a font.
#[derive(Clone, Copy, Debug, PartialEq, Eq, Structural)]
pub enum FontStyle {
    Normal,
    Italic,
}

/// The decoration of text.
#[derive(Clone, Copy, Debug, PartialEq, Eq, Structural)]
pub enum TextDecoration {
    Normal,
    Underline,
}

/// One declaration of an inline style. Colors are `0xRRGGBB`.
#[derive(Clone, Copy, Debug, PartialEq, Eq, Structural)]
pub enum Style {
    BackgroundColor(u32),
    Color(u32),
    FontWeight(FontWeight),
    FontStyle(FontStyle),
    TextDecoration(TextDecoration),
}

/// One parsed attribute of a start tag.
#[derive(Clone, Debug)]
pub enum Attr {
    /// Alignment of the element's box.
    Align(Align),
    /// The target of a link.
    Href(String),
    /// A named anchor on the element.
    Anchor(String),
    /// The number of the first item of an ordered list.
    Start(usize),
    /// The declarations of the element's inline style, in order.
    Style(Vec<Style>),
    /// The element is a checkbox.
    IsCheckbox,
    /// The checkbox is ticked.
    IsChecked,
}

/// The mathematical value of an [`Attr`].
pub enum AttrView {
    Align(Align),
    Href(Seq<char>),
    Anchor(Seq<char>),
    Start(usize),
    Style(Seq<Style>),
    IsCheckbox,
    IsChecked,
}

impl View for Attr {
    type V = AttrView;

    open spec fn view(&self) -> AttrView {
        match self {
            Attr::Align(a) => AttrView::Align(*a),
            Attr::Href(s) => AttrView::Href(s@),
            Attr::Anchor(s) => AttrView::Anchor(s@),
            Attr::Start(n) => AttrView::Start(*n),
            Attr::Style(decls) => AttrView::Style(decls@),
            Attr::IsCheckbox => AttrView::IsCheckbox,
            Attr::IsChecked => AttrView::IsChecked,
        }
    }
}

impl DeepView for Attr {
    type V = AttrView;

    open spec fn deep_view(&self) -> AttrView {
        self@
    }
}

/// The alignment that the first `Align` attribute at or after `i` gives.
pub open spec fn find_align(attrs: Seq<AttrView>, i: int) -> Option<Align>
    decreases attrs.len() - i,
{
    if 0 <= i < attrs.len() {
        match attrs[i] {
            AttrView::Align(a) => Some(a),
            _ => find_align(attrs, i + 1),
        }
    } else {
        None
    }
}

/// The declarations of the first `Style` attribute at or after `i`; none if
/// there is no such attribute.
pub open spec fn find_style(attrs: Seq<AttrView>, i: int) -> Seq<Style>
    decreases attrs.len() - i,
{
    if 0 <= i < attrs.len() {
        match attrs[i] {
            AttrView::Style(decls) => decls,
            _ => find_style(attrs, i + 1),
        }
    } else {
        Seq::empty()
    }
}

/// Whether `attrs` holds `IsCheckbox`.
pub open spec fn has_checkbox(attrs: Seq<AttrView>) -> bool {
    exists|i: int| 0 <= i < attrs.len() && #[trigger] attrs[i] == AttrView::IsCheckbox
}

/// Whether `attrs` holds `IsChecked`.
pub open spec fn has_checked(attrs: Seq<AttrView>) -> bool {
    exists|i: int| 0 <= i < attrs.len() && #[trigger] attrs[i] == AttrView::IsChecked
}

/// The alignment that a list of attributes asks for: that of its first `Align`.
pub fn align_of(attrs: &Vec<Attr>) -> (align: Option<Align>)
    ensures
        align == find_align(attrs.deep_view(), 0),
{
    let mut i: usize = 0;
    while i < attrs.len()
        invariant
            i <= attrs.len(),
            find_align(attrs.deep_view(), 0) == find_align(attrs.deep_view(), i as int),
        decreases attrs.len() - i,
    {
        if let Attr::Align(a) = &attrs[i] {
            return Some(*a);
        }
        i += 1;
    }
    None
}

/// Whether a list of attributes marks a checkbox, and whether it is ticked.
pub fn checkbox_of(attrs: &Vec<Attr>) -> (r: (bool, bool))
    ensures
        r.0 == has_checkbox(attrs.deep_view()),
        r.1 == has_checked(attrs.deep_view()),
{
    let mut is_checkbox = false;
    let mut is_checked = false;
    let mut i: usize = 0;
    while i < attrs.len()
        invariant
            i <= attrs.len(),
            is_checkbox == has_checkbox(attrs.deep_view().take(i as int)),
            is_checked == has_checked(attrs.deep_view().take(i as int)),
        decreases attrs.len() - i,
    {
        let ghost before = attrs.deep_view().take(i as int);
        let ghost after = attrs.deep_view().take(i + 1);
        assert(forall|j: int| 0 <= j < i ==> before[j] == after[j]);
        assert(after[i as int] == attrs[i as int]@);
        match &attrs[i] {
            Attr::IsCheckbox => {
                is_checkbox = true;
            },
            Attr::IsChecked => {
                is_checked = true;
            },
            _ => {},
        }
        assert(has_checkbox(before) ==> has_checkbox(after)) by {
            if has_checkbox(before) {
                let j = choose|j: int| 0 <= j < before.len() && before[j] == AttrView::IsCheckbox;
                assert(after[j] == AttrView::IsCheckbox);
            }
        }
        assert(has_checked(before) ==> has_checked(after)) by {
            if has_checked(before) {
                let j = choose|j: int| 0 <= j < before.len() && before[j] == AttrView::IsChecked;
                assert(after[j] == AttrView::IsChecked);
            }
        }
        i += 1;
    }
    assert(attrs.deep_view().take(attrs.len() as int) =~= attrs.deep_view());
    (is_checkbox, is_checked)
}

} // verus!
