use markflow::element::{Element, Spacer};
use markflow::interpreter::ast::AstOpts;
use markflow::interpreter::compose::{push_element, push_spacer, push_text_box, text};
use markflow::interpreter::html::{Align, FontStyle, FontWeight, TextDecoration};
use markflow::interpreter::state::{InheritedState, Span};
use markflow::text::{FontFamily, Text, TextBox, DEFAULT_FONT_SIZE, SMALL_FONT_SIZE};

const TEXT_COLOR: u32 = 0x9DACBB;
const LINK_COLOR: u32 = 0x4182EB;
const CODE_COLOR: u32 = 0xB38FAC;

fn plain_state() -> InheritedState {
    InheritedState::with_span_color(CODE_COLOR)
}

fn compose(runs: &[&str], state: &InheritedState) -> TextBox {
    let opts = AstOpts::new();
    let mut tb = TextBox::new(vec![]);
    for run in runs {
        text(&mut tb, run, &opts, state);
    }
    tb
}

fn fragments(tb: &TextBox) -> Vec<&str> {
    tb.texts.iter().map(|t| t.text.as_str()).collect()
}

#[test]
fn root_state_has_every_option_off() {
    let state = plain_state();
    assert_eq!(state.global_indent, 0);
    let o = &state.text_options;
    assert!(!o.underline && !o.bold && !o.italic && !o.strike_through);
    assert!(!o.small && !o.code && !o.pre_formatted);
    assert_eq!(o.block_quote, 0);
    assert_eq!(o.align, None);
    assert_eq!(o.link, None);
    assert_eq!(state.span, Span::with_color(CODE_COLOR));
    assert_eq!(state.span.color, CODE_COLOR);
    assert_eq!(state.span.weight, FontWeight::Normal);
    assert_eq!(state.span.style, FontStyle::Normal);
    assert_eq!(state.span.decor, TextDecoration::Normal);
}

#[test]
fn set_align_keeps_the_old_alignment_when_given_none() {
    let mut state = plain_state();
    state.set_align(Some(Align::Center));
    assert_eq!(state.text_options.align, Some(Align::Center));
    state.set_align(None);
    assert_eq!(state.text_options.align, Some(Align::Center));
    state.set_align(Some(Align::Right));
    assert_eq!(state.text_options.align, Some(Align::Right));
}

#[test]
fn state_clone_is_independent() {
    let mut state = plain_state();
    state.text_options.link = Some("target".to_string());
    state.global_indent = 3;
    let mut copy = state.clone();
    copy.text_options.bold = true;
    copy.text_options.link = None;
    assert!(!state.text_options.bold);
    assert_eq!(state.text_options.link.as_deref(), Some("target"));
    assert_eq!(copy.global_indent, 3);
}

#[test]
fn plain_run_becomes_one_plain_fragment() {
    let tb = compose(&["hello world"], &plain_state());
    assert_eq!(tb.texts.len(), 1);
    let t = &tb.texts[0];
    assert_eq!(t.text, "hello world");
    assert_eq!(t.color, None);
    assert_eq!(t.default_color, TEXT_COLOR);
    assert_eq!(t.shown_color(), TEXT_COLOR);
    assert_eq!(t.link, None);
    assert!(!t.is_bold && !t.is_italic && !t.is_underlined && !t.is_striked);
    assert_eq!(t.font_family, FontFamily::SansSerif);
    assert_eq!(tb.font_size, DEFAULT_FONT_SIZE);
    assert_eq!(tb.is_quote_block, None);
}

#[test]
fn first_fragment_loses_leading_whitespace() {
    let tb = compose(&["  \n\t first  ", "  second"], &plain_state());
    assert_eq!(fragments(&tb), ["first  ", "  second"]);
}

#[test]
fn whitespace_between_words_collapses_to_one_space() {
    let tb = compose(&["foo", " \n\t  ", "bar"], &plain_state());
    assert_eq!(fragments(&tb), ["foo", " ", "bar"]);
    assert_eq!(tb.texts[1].shown_color(), TEXT_COLOR);
    let tb = compose(&["foo", "\n", "bar"], &plain_state());
    assert_eq!(fragments(&tb), ["foo", " ", "bar"]);
}

#[test]
fn repeated_whitespace_runs_give_one_space() {
    let tb = compose(&["foo", " ", "\n", "   ", "", "bar"], &plain_state());
    assert_eq!(fragments(&tb), ["foo", " ", "bar"]);
}

#[test]
fn whitespace_adds_nothing_to_an_empty_box_or_after_whitespace() {
    let tb = compose(&[" ", "\n", ""], &plain_state());
    assert!(tb.texts.is_empty());
    let tb = compose(&["foo ", " ", "\n"], &plain_state());
    assert_eq!(fragments(&tb), ["foo "]);
}

#[test]
fn whitespace_after_an_empty_fragment_adds_nothing() {
    let opts = AstOpts::new();
    let mut tb = TextBox::new(vec![Text::new(String::new(), TEXT_COLOR)]);
    text(&mut tb, " ", &opts, &plain_state());
    assert_eq!(tb.texts.len(), 1);
}

#[test]
fn preformatted_newline_is_one_newline_fragment() {
    let mut state = plain_state();
    state.text_options.pre_formatted = true;
    let tb = compose(&["a", "\n", "\n", "b"], &state);
    assert_eq!(fragments(&tb), ["a", "\n", "\n", "b"]);
}

#[test]
fn preformatted_text_keeps_its_whitespace() {
    let mut state = plain_state();
    state.text_options.pre_formatted = true;
    let tb = compose(&["    indented", "   ", "\tmore\n"], &state);
    assert_eq!(fragments(&tb), ["    indented", "   ", "\tmore\n"]);
}

#[test]
fn toggles_switch_properties_on() {
    let mut state = plain_state();
    state.text_options.bold = true;
    state.text_options.strike_through = true;
    let tb = compose(&["x"], &state);
    let t = &tb.texts[0];
    assert!(t.is_bold && t.is_striked && !t.is_italic && !t.is_underlined);
    let mut state = plain_state();
    state.text_options.italic = true;
    state.text_options.underline = true;
    let tb = compose(&["x"], &state);
    let t = &tb.texts[0];
    assert!(!t.is_bold && !t.is_striked && t.is_italic && t.is_underlined);
}

#[test]
fn code_takes_the_span_style() {
    let mut state = plain_state();
    state.text_options.code = true;
    state.span = Span {
        color: 0x112233,
        weight: FontWeight::Bold,
        style: FontStyle::Italic,
        decor: TextDecoration::Underline,
    };
    let tb = compose(&["let x"], &state);
    let t = &tb.texts[0];
    assert_eq!(t.color, Some(0x112233));
    assert_eq!(t.shown_color(), 0x112233);
    assert_eq!(t.font_family, FontFamily::Monospace);
    assert!(t.is_bold && t.is_italic && t.is_underlined && !t.is_striked);
}

#[test]
fn span_style_is_ignored_outside_code() {
    let mut state = plain_state();
    state.span = Span {
        color: 0x112233,
        weight: FontWeight::Bold,
        style: FontStyle::Italic,
        decor: TextDecoration::Underline,
    };
    let tb = compose(&["x"], &state);
    let t = &tb.texts[0];
    assert_eq!(t.color, None);
    assert_eq!(t.font_family, FontFamily::SansSerif);
    assert!(!t.is_bold && !t.is_italic && !t.is_underlined);
}

#[test]
fn link_color_wins_over_code_color() {
    let mut state = plain_state();
    state.text_options.code = true;
    state.text_options.link = Some("https://example.org".to_string());
    let tb = compose(&["code"], &state);
    let t = &tb.texts[0];
    assert_eq!(t.color, Some(LINK_COLOR));
    assert_eq!(t.shown_color(), LINK_COLOR);
    assert_eq!(t.link.as_deref(), Some("https://example.org"));
    assert_eq!(t.font_family, FontFamily::Monospace);
}

#[test]
fn every_run_under_a_link_carries_it() {
    let mut state = plain_state();
    state.text_options.link = Some("t".to_string());
    let tb = compose(&["one", " ", "two"], &state);
    assert_eq!(tb.texts[0].link.as_deref(), Some("t"));
    assert_eq!(tb.texts[1].link, None);
    assert_eq!(tb.texts[2].link.as_deref(), Some("t"));
    assert_eq!(tb.texts[2].shown_color(), LINK_COLOR);
}

#[test]
fn small_sets_the_font_size_of_the_box() {
    let mut state = plain_state();
    state.text_options.small = true;
    let tb = compose(&["fine print"], &state);
    assert_eq!(tb.font_size, SMALL_FONT_SIZE);
    assert_eq!(SMALL_FONT_SIZE, 1200);
    assert_eq!(DEFAULT_FONT_SIZE, 1600);
}

#[test]
fn quoted_text_marks_the_box_with_the_depth() {
    let mut state = plain_state();
    state.text_options.block_quote = 2;
    let tb = compose(&["quoted"], &state);
    assert_eq!(tb.is_quote_block, Some(2));
    let tb = compose(&[" "], &state);
    assert_eq!(tb.is_quote_block, None);
}

#[test]
fn text_builders_set_one_property_each() {
    let t = Text::new("x".to_string(), 1)
        .with_color(2)
        .with_link("l".to_string())
        .with_family(FontFamily::Monospace)
        .make_bold(true)
        .make_italic(true)
        .make_underlined(true)
        .make_striked(true);
    assert_eq!(t.text, "x");
    assert_eq!(t.default_color, 1);
    assert_eq!(t.color, Some(2));
    assert_eq!(t.shown_color(), 2);
    assert_eq!(t.link.as_deref(), Some("l"));
    assert_eq!(t.font_family, FontFamily::Monospace);
    assert!(t.is_bold && t.is_italic && t.is_underlined && t.is_striked);
    let t = t.make_bold(false).make_striked(false);
    assert!(!t.is_bold && t.is_italic && t.is_underlined && !t.is_striked);
}

#[test]
fn text_box_setters_and_queries() {
    let mut tb = TextBox::new(vec![]);
    assert_eq!(tb.indent, 0);
    assert_eq!(tb.align, Align::Left);
    assert!(!tb.is_code_block);
    assert_eq!(tb.is_checkbox, None);
    assert_eq!(tb.is_anchor, None);
    assert_eq!(tb.background_color, None);
    assert!(!tb.has_content());
    assert_eq!(tb.chars(), "");
    tb.set_align_or_default(Some(Align::Right));
    assert_eq!(tb.align, Align::Right);
    tb.set_align_or_default(None);
    assert_eq!(tb.align, Align::Left);
    tb.set_code_block(true);
    tb.set_quote_block(3);
    tb.set_checkbox(Some(false));
    tb.set_anchor("#a".to_string());
    tb.set_background_color(0xABCDEF);
    assert!(tb.is_code_block);
    assert_eq!(tb.is_quote_block, Some(3));
    assert_eq!(tb.is_checkbox, Some(false));
    assert_eq!(tb.is_anchor.as_deref(), Some("#a"));
    assert_eq!(tb.background_color, Some(0xABCDEF));
    tb.push(Text::new(String::new(), 0));
    assert!(!tb.has_content());
    tb.push(Text::new("ab".to_string(), 0));
    tb.push(Text::new("c".to_string(), 0));
    assert!(tb.has_content());
    assert_eq!(tb.chars(), "abc");
}

#[test]
fn flush_emits_a_box_with_text_at_the_current_indent() {
    let mut out = vec![];
    let mut state = plain_state();
    state.global_indent = 2;
    let mut tb = compose(&["text"], &plain_state());
    tb.set_checkbox(Some(true));
    tb.set_code_block(true);
    push_text_box(&mut out, &mut tb, &state);
    assert_eq!(out.len(), 1);
    match &out[0] {
        Element::TextBox(b) => {
            assert_eq!(fragments(b), ["text"]);
            assert_eq!(b.indent, 2);
            assert_eq!(b.is_checkbox, Some(true));
            assert!(b.is_code_block);
        }
        other => panic!("expected a text box, found {other:?}"),
    }
    assert!(tb.texts.is_empty());
    assert_eq!(tb.indent, 2);
    assert_eq!(tb.is_checkbox, None);
    assert!(!tb.is_code_block);
    assert_eq!(tb.font_size, DEFAULT_FONT_SIZE);
}

#[test]
fn flush_drops_a_box_without_text() {
    let mut out = vec![];
    let mut tb = TextBox::new(vec![Text::new(String::new(), 0), Text::new(String::new(), 0)]);
    tb.set_checkbox(Some(true));
    push_text_box(&mut out, &mut tb, &plain_state());
    assert!(out.is_empty());
    assert!(tb.texts.is_empty());
    assert_eq!(tb.is_checkbox, None);
}

#[test]
fn flush_of_an_empty_box_keeps_its_checkbox() {
    let mut out = vec![];
    let mut tb = TextBox::new(vec![]);
    tb.set_checkbox(Some(false));
    tb.set_anchor("#gone".to_string());
    push_text_box(&mut out, &mut tb, &plain_state());
    assert!(out.is_empty());
    assert_eq!(tb.is_checkbox, Some(false));
    assert_eq!(tb.is_anchor, None);
}

#[test]
fn spacers_and_elements_are_appended() {
    let mut out = vec![];
    push_spacer(&mut out);
    push_element(&mut out, Element::Spacer(Spacer::visible()));
    assert!(matches!(out[0], Element::Spacer(Spacer { visible: false })));
    assert!(matches!(out[1], Element::Spacer(Spacer { visible: true })));
    assert_eq!(Spacer::invisible(), Spacer { visible: false });
}
