use markflow::color::Theme;
use markflow::element::{Element, Spacer, Table};
use markflow::interpreter::ast::{Ast, AstOpts};
use markflow::interpreter::attr::parse_attribute;
use markflow::interpreter::flow::FlowProcess;
use markflow::interpreter::headings::holds_heading;
use markflow::interpreter::hir::{Hir, Token};
use markflow::interpreter::html::{Align, Attr, FontStyle, FontWeight, Style, TextDecoration};
use markflow::interpreter::state::InheritedState;
use markflow::text::{FontFamily, TextBox};

const TEXT_COLOR: u32 = 0x9DACBB;
const LINK_COLOR: u32 = 0x4182EB;
const CODE_COLOR: u32 = 0xB38FAC;

fn open(name: &str) -> Token {
    Token::StartTag { name: name.to_string(), attributes: vec![], self_closing: false }
}

fn open_with(name: &str, attributes: Vec<Attr>) -> Token {
    Token::StartTag { name: name.to_string(), attributes, self_closing: false }
}

fn close(name: &str) -> Token {
    Token::EndTag { name: name.to_string() }
}

fn text(s: &str) -> Token {
    Token::Text(s.to_string())
}

fn build(tokens: Vec<Token>) -> Hir {
    let mut hir = Hir::new();
    for token in tokens {
        hir.process_token(token);
    }
    hir.process_token(Token::End);
    hir
}

fn interpret(tokens: Vec<Token>) -> Vec<Element> {
    Ast::new().interpret(build(tokens))
}

fn text_box(element: &Element) -> &TextBox {
    match element {
        Element::TextBox(b) => b,
        other => panic!("expected a text box, found {other:?}"),
    }
}

fn table(element: &Element) -> &Table {
    match element {
        Element::Table(t) => t,
        other => panic!("expected a table, found {other:?}"),
    }
}

fn is_gap(element: &Element) -> bool {
    matches!(element, Element::Spacer(Spacer { visible: false }))
}

fn texts(tb: &TextBox) -> Vec<&str> {
    tb.texts.iter().map(|t| t.text.as_str()).collect()
}

#[test]
fn new_interpreter_has_the_dark_theme() {
    let ast = Ast::new();
    assert_eq!(
        ast.opts.theme,
        Theme { text_color: TEXT_COLOR, link_color: LINK_COLOR, code_color: CODE_COLOR }
    );
    assert_eq!(AstOpts::new().theme, Theme::dark_default());
}

#[test]
fn empty_input_gives_empty_output() {
    assert!(Ast::new().interpret(Hir::new()).is_empty());
    assert!(interpret(vec![]).is_empty());
}

#[test]
fn text_directly_in_the_root_gives_nothing() {
    assert!(interpret(vec![text("loose text")]).is_empty());
}

#[test]
fn paragraph_gives_a_box_and_a_spacer() {
    let out = interpret(vec![
        open("p"),
        text("Hello "),
        open("b"),
        text("world"),
        close("b"),
        close("p"),
    ]);
    assert_eq!(out.len(), 2);
    let b = text_box(&out[0]);
    assert_eq!(texts(b), ["Hello ", "world"]);
    assert!(!b.texts[0].is_bold);
    assert!(b.texts[1].is_bold);
    assert_eq!(b.texts[0].default_color, TEXT_COLOR);
    assert_eq!(b.indent, 0);
    assert_eq!(b.align, Align::Left);
    assert_eq!(b.font_size, 1600);
    assert!(is_gap(&out[1]));
}

#[test]
fn paragraph_without_text_gives_only_the_spacer() {
    let out = interpret(vec![open("p"), text("   "), close("p")]);
    assert_eq!(out.len(), 1);
    assert!(is_gap(&out[0]));
}

#[test]
fn top_level_elements_come_in_document_order() {
    let out = interpret(vec![
        open("p"),
        text("one"),
        close("p"),
        text("\n"),
        open("p"),
        text("two"),
        close("p"),
    ]);
    assert_eq!(out.len(), 4);
    assert_eq!(texts(text_box(&out[0])), ["one"]);
    assert!(is_gap(&out[1]));
    assert_eq!(texts(text_box(&out[2])), ["two"]);
    assert!(is_gap(&out[3]));
}

#[test]
fn formatting_does_not_leak_into_siblings() {
    let out = interpret(vec![
        open("p"),
        open("i"),
        text("a"),
        close("i"),
        text("b"),
        open("u"),
        open("s"),
        text("c"),
        close("s"),
        close("u"),
        text("d"),
        close("p"),
    ]);
    let b = text_box(&out[0]);
    assert_eq!(texts(b), ["a", "b", "c", "d"]);
    assert!(b.texts[0].is_italic);
    assert!(!b.texts[1].is_italic && !b.texts[1].is_underlined);
    assert!(b.texts[2].is_underlined && b.texts[2].is_striked && !b.texts[2].is_italic);
    assert!(!b.texts[3].is_underlined && !b.texts[3].is_striked);
}

#[test]
fn div_aligns_and_gives_no_spacer() {
    let out = interpret(vec![
        open_with("div", vec![Attr::Align(Align::Center)]),
        text("centered"),
        close("div"),
    ]);
    assert_eq!(out.len(), 1);
    let b = text_box(&out[0]);
    assert_eq!(b.align, Align::Center);
    assert_eq!(texts(b), ["centered"]);
}

#[test]
fn alignment_is_inherited_by_inner_paragraphs() {
    let out = interpret(vec![
        open_with("div", vec![Attr::Align(Align::Right)]),
        open("p"),
        text("inner"),
        close("p"),
        open_with("p", vec![Attr::Align(Align::Center)]),
        text("own"),
        close("p"),
        close("div"),
    ]);
    assert_eq!(text_box(&out[0]).align, Align::Right);
    assert!(is_gap(&out[1]));
    assert_eq!(text_box(&out[2]).align, Align::Center);
    assert!(is_gap(&out[3]));
    assert_eq!(out.len(), 4);
}

#[test]
fn break_starts_a_new_box() {
    let out = interpret(vec![open("p"), text("one"), open("br"), text("two"), close("p")]);
    assert_eq!(out.len(), 3);
    assert_eq!(texts(text_box(&out[0])), ["one"]);
    assert_eq!(texts(text_box(&out[1])), ["two"]);
    assert!(is_gap(&out[2]));
}

#[test]
fn horizontal_rule_is_a_visible_spacer() {
    let out = interpret(vec![open("hr")]);
    assert_eq!(out.len(), 1);
    assert!(matches!(out[0], Element::Spacer(Spacer { visible: true })));
}

#[test]
fn horizontal_rule_flushes_the_pending_box_first() {
    let out = interpret(vec![open("div"), text("a"), open("hr"), text("b"), close("div")]);
    assert_eq!(out.len(), 3);
    assert_eq!(texts(text_box(&out[0])), ["a"]);
    assert!(matches!(out[1], Element::Spacer(Spacer { visible: true })));
    assert_eq!(texts(text_box(&out[2])), ["b"]);
}

#[test]
fn horizontal_rule_leaves_an_empty_box() {
    let nodes = build(vec![open("hr")]).content();
    let mut out = vec![Element::Spacer(Spacer::invisible())];
    let mut opts = AstOpts::new();
    let state = InheritedState::with_span_color(CODE_COLOR);
    let mut tb = TextBox::new(vec![]);
    markflow::interpreter::compose::text(&mut tb, "a", &opts, &state);
    FlowProcess::process(&nodes, &mut out, &mut opts, &mut tb, 1, &state);
    assert_eq!(out.len(), 3);
    assert!(is_gap(&out[0]));
    assert_eq!(texts(text_box(&out[1])), ["a"]);
    assert!(matches!(out[2], Element::Spacer(Spacer { visible: true })));
    assert!(tb.texts.is_empty());
}

#[test]
fn block_quote_indents_and_counts_depth() {
    let out = interpret(vec![
        open("blockquote"),
        open("p"),
        text("outer"),
        close("p"),
        open("blockquote"),
        open("p"),
        text("inner"),
        close("p"),
        close("blockquote"),
        close("blockquote"),
    ]);
    let outer = text_box(&out[0]);
    assert_eq!(texts(outer), ["outer"]);
    assert_eq!(outer.indent, 1);
    assert_eq!(outer.is_quote_block, Some(1));
    assert!(is_gap(&out[1]));
    let inner = text_box(&out[2]);
    assert_eq!(texts(inner), ["inner"]);
    assert_eq!(inner.indent, 2);
    assert_eq!(inner.is_quote_block, Some(2));
    assert!(is_gap(&out[3]));
    assert!(is_gap(&out[4]));
    assert_eq!(out.len(), 5);
}

#[test]
fn headings_scale_the_font_by_level() {
    let sizes =
        [("h1", 3200), ("h2", 2400), ("h3", 1872), ("h4", 1600), ("h5", 1328), ("h6", 1072)];
    for (name, size) in sizes {
        let out = interpret(vec![open(name), text("Title"), close(name)]);
        assert_eq!(out.len(), 3, "{name}");
        assert!(is_gap(&out[0]));
        let b = text_box(&out[1]);
        assert_eq!(b.font_size, size, "{name}");
        assert!(b.texts[0].is_bold);
        assert_eq!(b.texts[0].is_underlined, name == "h1");
        assert_eq!(b.is_anchor.as_deref(), Some("#title"));
        assert!(is_gap(&out[2]));
    }
}

#[test]
fn heading_anchor_is_made_from_all_text_of_the_heading() {
    let out = interpret(vec![
        open_with("h2", vec![Attr::Align(Align::Center)]),
        text("Ticks aren't "),
        open("code"),
        text("In Here"),
        close("code"),
        close("h2"),
    ]);
    let b = text_box(&out[1]);
    assert_eq!(b.chars(), "Ticks aren't In Here");
    assert_eq!(b.is_anchor.as_deref(), Some("#ticks-arent-in-here"));
    assert_eq!(b.align, Align::Center);
    assert_eq!(b.texts[1].font_family, FontFamily::Monospace);
}

#[test]
fn heading_anchors_are_unique_across_a_document() {
    let mut tokens = vec![];
    for _ in 0..3 {
        tokens.extend([open("h1"), text("Same Title"), close("h1")]);
    }
    tokens.extend([open("h2"), text("same title"), close("h2")]);
    let out = interpret(tokens);
    let anchors: Vec<&str> = out
        .iter()
        .filter_map(|e| match e {
            Element::TextBox(b) => b.is_anchor.as_deref(),
            _ => None,
        })
        .collect();
    assert_eq!(anchors, ["#same-title", "#same-title-1", "#same-title-2", "#same-title-3"]);
}

#[test]
fn one_anchorizer_serves_successive_documents() {
    let mut ast = Ast::new();
    let first = ast.interpret(build(vec![open("h1"), text("Intro"), close("h1")]));
    let second = ast.interpret(build(vec![open("h1"), text("Intro"), close("h1")]));
    assert_eq!(text_box(&first[1]).is_anchor.as_deref(), Some("#intro"));
    assert_eq!(text_box(&second[1]).is_anchor.as_deref(), Some("#intro-1"));
}

#[test]
fn link_sets_target_and_color_on_its_text() {
    let out = interpret(vec![
        open("p"),
        text("see "),
        open_with(
            "a",
            vec![Attr::Href("old".to_string()), Attr::Href("https://example.org".to_string())],
        ),
        text("this"),
        close("a"),
        text(" page"),
        close("p"),
    ]);
    let b = text_box(&out[0]);
    assert_eq!(texts(b), ["see ", "this", " page"]);
    assert_eq!(b.texts[0].link, None);
    assert_eq!(b.texts[1].link.as_deref(), Some("https://example.org"));
    assert_eq!(b.texts[1].color, Some(LINK_COLOR));
    assert_eq!(b.texts[2].link, None);
    assert_eq!(b.texts[2].shown_color(), TEXT_COLOR);
}

#[test]
fn code_inside_a_link_has_the_link_color() {
    let out = interpret(vec![
        open("p"),
        open_with("a", vec![Attr::Href("https://example.org".to_string())]),
        open("code"),
        text("code"),
        close("code"),
        close("a"),
        close("p"),
    ]);
    let t = &text_box(&out[0]).texts[0];
    assert_eq!(t.color, Some(LINK_COLOR));
    assert_eq!(t.link.as_deref(), Some("https://example.org"));
    assert_eq!(t.font_family, FontFamily::Monospace);
}

#[test]
fn code_outside_a_link_has_the_code_color() {
    let out = interpret(vec![open("p"), open("code"), text("x"), close("code"), close("p")]);
    let t = &text_box(&out[0]).texts[0];
    assert_eq!(t.color, Some(CODE_COLOR));
    assert_eq!(t.font_family, FontFamily::Monospace);
}

#[test]
fn named_anchor_marks_the_current_box() {
    let out = interpret(vec![
        open("p"),
        open_with("a", vec![Attr::Anchor("#first".to_string()), Attr::Anchor("#here".to_string())]),
        close("a"),
        text("target"),
        close("p"),
    ]);
    let b = text_box(&out[0]);
    assert_eq!(b.is_anchor.as_deref(), Some("#here"));
    assert_eq!(b.texts[0].link, None);
}

#[test]
fn span_styles_inline_code() {
    let style = vec![
        Style::Color(0x010203),
        Style::BackgroundColor(0xFFFFFF),
        Style::FontWeight(FontWeight::Bold),
        Style::FontStyle(FontStyle::Italic),
        Style::TextDecoration(TextDecoration::Underline),
        Style::Color(0x0A0B0C),
    ];
    let out = interpret(vec![
        open("pre"),
        open_with("span", vec![Attr::Style(style), Attr::Style(vec![Style::Color(1)])]),
        open("code"),
        text("fn"),
        close("code"),
        close("span"),
        open("code"),
        text(" main"),
        close("code"),
        close("pre"),
    ]);
    let b = text_box(&out[0]);
    assert_eq!(texts(b), ["fn", " main"]);
    assert_eq!(b.texts[0].color, Some(0x0A0B0C));
    assert!(b.texts[0].is_bold && b.texts[0].is_italic && b.texts[0].is_underlined);
    assert_eq!(b.texts[1].color, Some(CODE_COLOR));
    assert!(!b.texts[1].is_bold && !b.texts[1].is_italic && !b.texts[1].is_underlined);
    assert_eq!(b.background_color, None);
}

#[test]
fn preformatted_block_keeps_newlines_and_whitespace() {
    let out = interpret(vec![
        open_with(
            "pre",
            vec![Attr::Style(vec![
                Style::BackgroundColor(0x2B303B),
                Style::BackgroundColor(0x101010),
            ])],
        ),
        text("  first"),
        text("\n"),
        text("\n"),
        text("    second\n"),
        close("pre"),
    ]);
    assert_eq!(out.len(), 2);
    let b = text_box(&out[0]);
    assert_eq!(texts(b), ["  first", "\n", "\n", "    second\n"]);
    assert!(b.is_code_block);
    assert_eq!(b.background_color, Some(0x101010));
    assert!(is_gap(&out[1]));
}

#[test]
fn small_text_shrinks_its_box() {
    let out = interpret(vec![open("p"), open("small"), text("fine"), close("small"), close("p")]);
    assert_eq!(text_box(&out[0]).font_size, 1200);
}

#[test]
fn ordered_list_numbers_from_its_start() {
    let start = parse_attribute("start", "5").expect("a start attribute");
    assert!(matches!(start, Attr::Start(5)));
    let out = interpret(vec![
        open_with("ol", vec![start]),
        open("li"),
        text("a"),
        close("li"),
        open("li"),
        text("b"),
        close("li"),
        close("ol"),
    ]);
    assert_eq!(out.len(), 3);
    let first = text_box(&out[0]);
    assert_eq!(texts(first), ["5. ", "a"]);
    assert!(first.texts[0].is_bold);
    assert!(!first.texts[1].is_bold);
    assert_eq!(first.indent, 1);
    assert_eq!(first.is_checkbox, None);
    let second = text_box(&out[1]);
    assert_eq!(texts(second), ["6. ", "b"]);
    assert!(is_gap(&out[2]));
}

#[test]
fn ordered_list_numbers_from_one_by_default() {
    let out = interpret(vec![
        open("ol"),
        text("\n"),
        open("li"),
        text("a"),
        close("li"),
        text("\n"),
        open("p"),
        text("not an item"),
        close("p"),
        open("li"),
        text("b"),
        close("li"),
        close("ol"),
    ]);
    assert_eq!(out.len(), 3);
    assert_eq!(texts(text_box(&out[0])), ["1. ", "a"]);
    assert_eq!(texts(text_box(&out[1])), ["2. ", "b"]);
}

#[test]
fn ordered_list_counts_past_the_largest_start() {
    let out = interpret(vec![
        open_with("ol", vec![Attr::Start(1), Attr::Start(usize::MAX)]),
        open("li"),
        text("a"),
        close("li"),
        open("li"),
        text("b"),
        close("li"),
        close("ol"),
    ]);
    let last = (usize::MAX as u128 + 1).to_string() + ". ";
    assert_eq!(texts(text_box(&out[0]))[0], usize::MAX.to_string() + ". ");
    assert_eq!(texts(text_box(&out[1]))[0], last);
}

#[test]
fn unordered_list_has_bullets() {
    let out = interpret(vec![
        open("ul"),
        open("li"),
        text("a"),
        close("li"),
        open("li"),
        text("b"),
        close("li"),
        close("ul"),
    ]);
    assert_eq!(out.len(), 3);
    assert_eq!(texts(text_box(&out[0])), ["\u{b7} ", "a"]);
    assert!(text_box(&out[0]).texts[0].is_bold);
    assert_eq!(texts(text_box(&out[1])), ["\u{b7} ", "b"]);
    assert!(is_gap(&out[2]));
}

#[test]
fn nested_list_is_indented_and_gets_no_spacer() {
    let out = interpret(vec![
        open("ul"),
        open("li"),
        text("outer"),
        open("ol"),
        open("li"),
        text("inner"),
        close("li"),
        close("ol"),
        close("li"),
        close("ul"),
    ]);
    assert_eq!(out.len(), 3);
    let outer = text_box(&out[0]);
    assert_eq!(texts(outer), ["\u{b7} ", "outer"]);
    assert_eq!(outer.indent, 1);
    let inner = text_box(&out[1]);
    assert_eq!(texts(inner), ["1. ", "inner"]);
    assert_eq!(inner.indent, 2);
    assert!(is_gap(&out[2]));
}

#[test]
fn checkbox_item_has_no_prefix() {
    let out = interpret(vec![
        open("ul"),
        open("li"),
        open_with("input", vec![Attr::IsCheckbox, Attr::IsChecked]),
        text(" done"),
        close("li"),
        open("li"),
        open_with("input", vec![Attr::IsCheckbox]),
        text(" open"),
        close("li"),
        open("li"),
        open_with("input", vec![Attr::IsChecked]),
        text("no box"),
        close("li"),
        close("ul"),
    ]);
    assert_eq!(out.len(), 4);
    let done = text_box(&out[0]);
    assert_eq!(texts(done), ["done"]);
    assert_eq!(done.is_checkbox, Some(true));
    let open_item = text_box(&out[1]);
    assert_eq!(texts(open_item), ["open"]);
    assert_eq!(open_item.is_checkbox, Some(false));
    let plain = text_box(&out[2]);
    assert_eq!(texts(plain), ["\u{b7} ", "no box"]);
    assert_eq!(plain.is_checkbox, None);
}

#[test]
fn checkbox_item_in_an_ordered_list_still_takes_a_number() {
    let out = interpret(vec![
        open("ol"),
        open("li"),
        open_with("input", vec![Attr::IsCheckbox]),
        text("task"),
        close("li"),
        open("li"),
        text("second"),
        close("li"),
        close("ol"),
    ]);
    assert_eq!(texts(text_box(&out[0])), ["task"]);
    assert_eq!(texts(text_box(&out[1])), ["2. ", "second"]);
}

#[test]
fn table_has_rows_of_cells() {
    let mut tokens = vec![open("table")];
    for row in [["a", "b"], ["c", "d"]] {
        tokens.push(open("tr"));
        for cell in row {
            tokens.extend([open("td"), text(cell), close("td")]);
        }
        tokens.push(close("tr"));
    }
    tokens.push(close("table"));
    let out = interpret(tokens);
    assert_eq!(out.len(), 3);
    assert!(is_gap(&out[0]));
    let t = table(&out[1]);
    assert_eq!(t.rows.len(), 2);
    let cells: Vec<Vec<String>> =
        t.rows.iter().map(|r| r.iter().map(|c| c.chars()).collect()).collect();
    assert_eq!(cells, [["a", "b"], ["c", "d"]]);
    assert!(!t.rows[0][0].texts[0].is_bold);
    assert!(is_gap(&out[2]));
}

#[test]
fn table_head_and_body_rows_are_collected() {
    let out = interpret(vec![
        open("table"),
        open("thead"),
        open("tr"),
        open_with("th", vec![Attr::Align(Align::Center)]),
        text("Name"),
        close("th"),
        open("th"),
        text("Value"),
        close("th"),
        close("tr"),
        close("thead"),
        open("tbody"),
        open("tr"),
        open_with("td", vec![Attr::Align(Align::Right)]),
        text("x"),
        open("b"),
        text("ignored"),
        close("b"),
        text("y"),
        close("td"),
        open("td"),
        close("td"),
        close("tr"),
        close("tbody"),
        close("table"),
    ]);
    let t = table(&out[1]);
    assert_eq!(t.rows.len(), 2);
    assert_eq!(t.rows[0].len(), 2);
    assert_eq!(t.rows[1].len(), 2);
    assert_eq!(texts(&t.rows[0][0]), ["Name"]);
    assert!(t.rows[0][0].texts[0].is_bold);
    assert_eq!(t.rows[0][0].align, Align::Center);
    assert_eq!(t.rows[0][1].align, Align::Left);
    assert_eq!(texts(&t.rows[1][0]), ["x", "y"]);
    assert!(!t.rows[1][0].texts[0].is_bold);
    assert_eq!(t.rows[1][0].align, Align::Right);
    assert!(t.rows[1][1].texts.is_empty());
    assert_eq!(t.rows[1][1].indent, 0);
}

#[test]
fn empty_table_is_still_emitted() {
    let out = interpret(vec![open("table"), text("stray"), open("p"), close("p"), close("table")]);
    assert_eq!(out.len(), 3);
    assert!(table(&out[1]).rows.is_empty());
    assert!(Table::new().rows.is_empty());
}

#[test]
fn misplaced_and_unsupported_elements_are_passed_over() {
    let passed_over =
        ["li", "tr", "td", "th", "thead", "tbody", "summary", "details", "section", "picture"];
    for name in passed_over {
        let out = interpret(vec![
            open(name),
            text("hidden"),
            open("p"),
            text("x"),
            close("p"),
            close(name),
        ]);
        assert!(out.is_empty(), "{name}");
    }
    for name in ["img", "source"] {
        let out = interpret(vec![open("p"), open(name), text("shown"), close("p")]);
        assert_eq!(texts(text_box(&out[0])), ["shown"], "{name}");
    }
}

#[test]
fn subtree_of_an_unknown_tag_goes_to_the_parent() {
    let out = interpret(vec![
        open("p"),
        text("a"),
        open("blink"),
        text("b"),
        close("blink"),
        text("c"),
        close("p"),
    ]);
    assert_eq!(texts(text_box(&out[0])), ["a", "b", "c"]);
}

#[test]
fn mismatched_end_tags_still_give_the_text() {
    let out = interpret(vec![open("b"), open("i"), text("text"), close("b"), close("i")]);
    assert_eq!(out.len(), 1);
    let b = text_box(&out[0]);
    assert_eq!(texts(b), ["text"]);
    assert!(b.texts[0].is_bold);
    assert!(b.texts[0].is_italic);
}

#[test]
fn unclosed_elements_are_rendered_as_far_as_they_go() {
    let out = interpret(vec![open("p"), text("no end"), open("u"), text(" tag")]);
    assert_eq!(out.len(), 2);
    assert_eq!(texts(text_box(&out[0])), ["no end", " tag"]);
    assert!(text_box(&out[0]).texts[1].is_underlined);
}

#[test]
fn interpret_node_handles_one_top_level_element() {
    let nodes = build(vec![
        open("p"),
        text("one"),
        close("p"),
        open("h1"),
        text("Two"),
        close("h1"),
    ])
    .content();
    let mut ast = Ast::new();
    let second = ast.interpret_node(&nodes, 2);
    assert_eq!(second.len(), 3);
    assert_eq!(text_box(&second[1]).is_anchor.as_deref(), Some("#two"));
    let first = ast.interpret_node(&nodes, 1);
    assert_eq!(first.len(), 2);
    assert_eq!(texts(text_box(&first[0])), ["one"]);
}

#[test]
fn process_leaves_inline_text_in_the_current_box() {
    let nodes = build(vec![open("b"), text("kept"), close("b")]).content();
    let mut out = vec![];
    let mut opts = AstOpts::new();
    let mut tb = TextBox::new(vec![]);
    let state = InheritedState::with_span_color(CODE_COLOR);
    FlowProcess::process(&nodes, &mut out, &mut opts, &mut tb, 1, &state);
    assert!(out.is_empty());
    assert_eq!(texts(&tb), ["kept"]);
    assert!(tb.texts[0].is_bold);
    FlowProcess::process_content(&nodes, &mut out, &mut opts, &mut tb, 1, &state);
    assert_eq!(texts(&tb), ["kept", "kept"]);
    assert!(!tb.texts[1].is_bold);
}

#[test]
fn headings_are_found_wherever_they_are_processed() {
    let nodes = build(vec![
        open("p"),
        text("plain"),
        close("p"),
        open("blockquote"),
        open("ul"),
        open("li"),
        open("h3"),
        text("deep"),
        close("h3"),
        close("li"),
        close("ul"),
        close("blockquote"),
        open("ul"),
        open("h2"),
        text("not in an item"),
        close("h2"),
        close("ul"),
        open("table"),
        open("tr"),
        open("td"),
        open("h1"),
        text("in a cell"),
        close("h1"),
        close("td"),
        close("tr"),
        close("table"),
        open("h6"),
        close("h6"),
        open("details"),
        open("h1"),
        text("hidden"),
        close("h1"),
        close("details"),
    ])
    .content();
    let top: Vec<usize> = nodes[0]
        .content
        .iter()
        .map(|item| match item {
            markflow::interpreter::hir::TextOrHirNode::Hir(c) => *c,
            other => panic!("expected a node, found {other:?}"),
        })
        .collect();
    let found: Vec<bool> = top.iter().map(|c| holds_heading(&nodes, *c)).collect();
    assert_eq!(found, [false, true, false, false, true, false]);
}

#[test]
fn element_without_heading_needs_no_anchorizer() {
    let nodes = build(vec![
        open("h1"),
        text("Title"),
        close("h1"),
        open("ol"),
        open("li"),
        text("item"),
        close("li"),
        close("ol"),
    ])
    .content();
    assert!(holds_heading(&nodes, 1));
    assert!(!holds_heading(&nodes, 2));
    let mut used = Ast::new();
    used.interpret_node(&nodes, 1);
    let with_used = used.interpret_node(&nodes, 2);
    let with_fresh = Ast::new().interpret_node(&nodes, 2);
    assert_eq!(with_used.len(), 2);
    assert_eq!(with_fresh.len(), 2);
    assert_eq!(texts(text_box(&with_used[0])), texts(text_box(&with_fresh[0])));
    assert_eq!(texts(text_box(&with_fresh[0])), ["1. ", "item"]);
    let again = used.interpret_node(&nodes, 1);
    assert_eq!(text_box(&again[1]).is_anchor.as_deref(), Some("#title-1"));
}
