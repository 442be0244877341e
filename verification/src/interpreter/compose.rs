//! The text-run composer and the flush of the current box.

use crate::chars::{
    char_is_whitespace, ends_in_word, is_blank, leading_whitespace, same_chars, str_is_blank,
    trim_start,
};
use crate::color::Theme;
use crate::element::{Element, ElementView, Spacer};
use crate::interpreter::ast::AstOpts;
use crate::interpreter::html::{FontStyle, FontWeight, TextDecoration};
use crate::interpreter::state::{InheritedState, StateView};
use crate::text::{
    lemma_deep_view_push, FontFamily, Text, TextBox, TextBoxView, TextView, SMALL_FONT_SIZE,
};
use vstd::prelude::*;
use vstd::string::*;

verus! {

/// `tb`, followed by a single space where its last fragment ends in a character
/// that is not whitespace.
pub open spec fn space_if_needed(tb: TextBoxView, theme: Theme) -> TextBoxView {
    if tb.texts.len() > 0 && ends_in_word(tb.texts.last().text) {
        tb.push(TextView::new(seq![' '], theme.text_color))
    } else {
        tb
    }
}

/// The fragment that holds `s` under the inherited state. Styles are applied
/// in a fixed order and the last one wins: inline code sets the monospace
/// family and the span's color, weight, style and decoration; a link then sets
/// the link color and the target; the toggles for bold, italic, underline and
/// strikethrough can only switch a property on.
pub open spec fn styled_fragment(s: Seq<char>, theme: Theme, st: StateView) -> TextView {
    let plain = TextView::new(s, theme.text_color);
    let coded = if st.text_options.code {
        TextView {
            color: Some(st.span.color),
            font_family: FontFamily::Monospace,
            is_bold: st.span.weight == FontWeight::Bold,
            is_italic: st.span.style == FontStyle::Italic,
            is_underlined: st.span.decor == TextDecoration::Underline,
            ..plain
        }
    } else {
        plain
    };
    let linked = match st.text_options.link {
        Some(target) => TextView { link: Some(target), color: Some(theme.link_color), ..coded },
        None => coded,
    };
    TextView {
        is_bold: linked.is_bold || st.text_options.bold,
        is_italic: linked.is_italic || st.text_options.italic,
        is_underlined: linked.is_underlined || st.text_options.underline,
        is_striked: st.text_options.strike_through,
        ..linked
    }
}

/// The box after the text run `s` has been composed into it.
///
/// A run that is exactly one newline gives a newline fragment in preformatted
/// text, and then, as a run of nothing but whitespace does outside
/// preformatted text, a single space where the box ends in a word. Any other
/// run becomes one styled fragment, without its leading whitespace where it
/// is the first fragment of a box that is not preformatted.
#[verifier::opaque]
pub open spec fn compose_text(
    tb: TextBoxView,
    s: Seq<char>,
    theme: Theme,
    st: StateView,
) -> TextBoxView {
    let pre = st.text_options.pre_formatted;
    if s == seq!['\n'] {
        let with_newline = if pre {
            tb.push(TextView::new(seq!['\n'], theme.text_color))
        } else {
            tb
        };
        space_if_needed(with_newline, theme)
    } else if is_blank(s) && !pre {
        space_if_needed(tb, theme)
    } else {
        let shown = if tb.texts.len() == 0 && !pre {
            trim_start(s)
        } else {
            s
        };
        let quoted = if st.text_options.block_quote >= 1 {
            TextBoxView { is_quote_block: Some(st.text_options.block_quote), ..tb }
        } else {
            tb
        };
        let sized = if st.text_options.small {
            TextBoxView { font_size: SMALL_FONT_SIZE as nat, ..quoted }
        } else {
            quoted
        };
        sized.push(styled_fragment(shown, theme, st))
    }
}

/// The box that takes the place of `tb` when `tb` is flushed: empty, at the
/// current indent. It keeps the checkbox of a box that held no fragment.
pub open spec fn fresh_box(tb: TextBoxView, st: StateView) -> TextBoxView {
    TextBoxView {
        indent: st.global_indent,
        is_checkbox: if tb.texts.len() == 0 {
            tb.is_checkbox
        } else {
            None
        },
        ..TextBoxView::new(Seq::empty())
    }
}

/// The output after `tb` has been flushed: `tb` is appended, at the current
/// indent, if one of its fragments holds text, and dropped otherwise.
pub open spec fn flushed(out: Seq<ElementView>, tb: TextBoxView, st: StateView) -> Seq<
    ElementView,
> {
    if tb.has_content() {
        out.push(ElementView::TextBox(TextBoxView { indent: st.global_indent, ..tb }))
    } else {
        out
    }
}

/// Appends an element to the output.
pub fn push_element(output: &mut Vec<Element>, element: Element)
    ensures
        final(output).deep_view() == old(output).deep_view().push(element@),
{
    let ghost before = *output;
    output.push(element);
    proof {
        lemma_deep_view_push(before, *output, element);
    }
}

/// Appends an invisible spacer to the output.
pub fn push_spacer(output: &mut Vec<Element>)
    ensures
        final(output).deep_view() == old(output).deep_view().push(
            ElementView::Spacer(Spacer { visible: false }),
        ),
{
    push_element(output, Element::Spacer(Spacer::invisible()));
}

/// `s` without its leading whitespace.
fn str_trim_start(s: &str) -> (t: &str)
    ensures
        t@ == trim_start(s@),
{
    let n = s.unicode_len();
    let mut k: usize = 0;
    for c in it: s.chars()
        invariant
            it.seq() == s@,
            n == s@.len(),
            k == it.index(),
            leading_whitespace(s@, 0) == leading_whitespace(s@, k as int),
    {
        if !char_is_whitespace(c) {
            return s.substring_char(k, n);
        }
        k += 1;
    }
    s.substring_char(k, n)
}

/// Appends a single space to `text_box` where its last fragment ends in a
/// character that is not whitespace.
fn push_space_if_needed(text_box: &mut TextBox, theme: &Theme)
    ensures
        final(text_box)@ == space_if_needed(old(text_box)@, *theme),
{
    let count = text_box.texts.len();
    if count > 0 {
        let last = text_box.texts[count - 1].text.as_str();
        let n = last.unicode_len();
        assert(text_box@.texts.last().text == last@);
        if n > 0 && !char_is_whitespace(last.get_char(n - 1)) {
            proof {
                reveal_strlit(" ");
                assert(" "@ =~= seq![' ']);
            }
            text_box.push(Text::new(" ".to_owned(), theme.text_color));
        }
    }
}

/// Makes the fragment that holds `shown` under the inherited state.
fn fragment(shown: &str, theme: &Theme, state: &InheritedState) -> (fragment: Text)
    ensures
        fragment@ == styled_fragment(shown@, *theme, state@),
{
    let mut fragment = Text::new(shown.to_owned(), theme.text_color);
    if state.text_options.code {
        fragment = fragment.with_color(state.span.color).with_family(FontFamily::Monospace);
        if state.span.weight == FontWeight::Bold {
            fragment = fragment.make_bold(true);
        }
        if state.span.style == FontStyle::Italic {
            fragment = fragment.make_italic(true);
        }
        if state.span.decor == TextDecoration::Underline {
            fragment = fragment.make_underlined(true);
        }
    }
    if let Some(link) = &state.text_options.link {
        fragment = fragment.with_link(link.clone());
        fragment = fragment.with_color(theme.link_color);
    }
    if state.text_options.bold {
        fragment = fragment.make_bold(true);
    }
    if state.text_options.italic {
        fragment = fragment.make_italic(true);
    }
    if state.text_options.underline {
        fragment = fragment.make_underlined(true);
    }
    if state.text_options.strike_through {
        fragment = fragment.make_striked(true);
    }
    fragment
}

/// Composes one text run into the current box: collapses whitespace, and
/// stamps the inherited style on what remains.
pub fn text(text_box: &mut TextBox, string: &str, opts: &AstOpts, state: &InheritedState)
    ensures
        final(text_box)@ == compose_text(old(text_box)@, string@, opts.theme, state@),
{
    let theme = &opts.theme;
    let pre = state.text_options.pre_formatted;
    proof {
        reveal(compose_text);
        reveal_strlit("\n");
        assert("\n"@ =~= seq!['\n']);
    }
    if same_chars(string, "\n") {
        if pre {
            text_box.push(Text::new("\n".to_owned(), theme.text_color));
        }
        push_space_if_needed(text_box, theme);
    } else if !pre && str_is_blank(string) {
        push_space_if_needed(text_box, theme);
    } else {
        let shown = if text_box.texts.len() == 0 && !pre {
            str_trim_start(string)
        } else {
            string
        };
        if state.text_options.block_quote >= 1 {
            text_box.set_quote_block(state.text_options.block_quote);
        }
        if state.text_options.small {
            text_box.font_size = SMALL_FONT_SIZE;
        }
        text_box.push(fragment(shown, theme, state));
    }
}

/// Flushes the current box: puts an empty box in its place and, if one of its
/// fragments holds text, appends it to the output.
pub fn push_text_box(
    output: &mut Vec<Element>,
    text_box: &mut TextBox,
    state: &InheritedState,
)
    ensures
        final(output).deep_view() == flushed(old(output).deep_view(), old(text_box)@, state@),
        final(text_box)@ == fresh_box(old(text_box)@, state@),
{
    let mut tb = TextBox::new(Vec::new());
    std::mem::swap(&mut tb, text_box);
    text_box.indent = state.global_indent;
    if tb.texts.len() > 0 {
        if tb.has_content() {
            tb.indent = state.global_indent;
            push_element(output, Element::TextBox(tb));
        }
    } else {
        text_box.is_checkbox = tb.is_checkbox;
    }
    assert(final(text_box)@.texts =~= Seq::<TextView>::empty());
}

} // verus!
