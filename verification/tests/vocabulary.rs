use markflow::chars::{
    char_is_whitespace, chars_are, chars_of, decimal_string, digit_of, index_of, parse_number,
    same_chars, slice_of, str_is_blank, trimmed,
};
use markflow::interpreter::attr::{parse_attribute, parse_style};
use markflow::interpreter::html::{
    align_of, checkbox_of, Align, Attr, FontStyle, FontWeight, HeaderType, Style, TagName,
    TextDecoration,
};

#[test]
fn every_known_name_resolves_to_its_tag() {
    let table = [
        ("a", TagName::Anchor),
        ("blockquote", TagName::BlockQuote),
        ("b", TagName::BoldOrStrong),
        ("strong", TagName::BoldOrStrong),
        ("br", TagName::Break),
        ("code", TagName::Code),
        ("details", TagName::Details),
        ("div", TagName::Div),
        ("em", TagName::EmphasisOrItalic),
        ("i", TagName::EmphasisOrItalic),
        ("h1", TagName::Header(HeaderType::H1)),
        ("h2", TagName::Header(HeaderType::H2)),
        ("h3", TagName::Header(HeaderType::H3)),
        ("h4", TagName::Header(HeaderType::H4)),
        ("h5", TagName::Header(HeaderType::H5)),
        ("h6", TagName::Header(HeaderType::H6)),
        ("hr", TagName::HorizontalRuler),
        ("img", TagName::Image),
        ("input", TagName::Input),
        ("li", TagName::ListItem),
        ("ol", TagName::OrderedList),
        ("p", TagName::Paragraph),
        ("picture", TagName::Picture),
        ("pre", TagName::PreformattedText),
        ("section", TagName::Section),
        ("small", TagName::Small),
        ("source", TagName::Source),
        ("span", TagName::Span),
        ("s", TagName::Strikethrough),
        ("del", TagName::Strikethrough),
        ("summary", TagName::Summary),
        ("table", TagName::Table),
        ("tbody", TagName::TableBody),
        ("td", TagName::TableDataCell),
        ("thead", TagName::TableHead),
        ("th", TagName::TableHeader),
        ("tr", TagName::TableRow),
        ("u", TagName::Underline),
        ("ins", TagName::Underline),
        ("ul", TagName::UnorderedList),
    ];
    for (name, tag) in table {
        assert_eq!(TagName::from_name(name), Some(tag), "{name}");
    }
}

#[test]
fn other_names_resolve_to_nothing() {
    for name in ["", "root", "Root", "P", "h7", "tfoot", "a ", "bb", "video"] {
        assert_eq!(TagName::from_name(name), None, "{name:?}");
    }
}

#[test]
fn void_elements_are_the_five_without_content() {
    for tag in [
        TagName::Break,
        TagName::HorizontalRuler,
        TagName::Image,
        TagName::Input,
        TagName::Source,
    ] {
        assert!(tag.is_void(), "{tag:?}");
    }
    for tag in [
        TagName::Paragraph,
        TagName::Picture,
        TagName::Root,
        TagName::ListItem,
        TagName::Header(HeaderType::H1),
        TagName::Table,
    ] {
        assert!(!tag.is_void(), "{tag:?}");
    }
}

#[test]
fn heading_multipliers_in_percent() {
    assert_eq!(HeaderType::H1.size_multiplier(), 200);
    assert_eq!(HeaderType::H2.size_multiplier(), 150);
    assert_eq!(HeaderType::H3.size_multiplier(), 117);
    assert_eq!(HeaderType::H4.size_multiplier(), 100);
    assert_eq!(HeaderType::H5.size_multiplier(), 83);
    assert_eq!(HeaderType::H6.size_multiplier(), 67);
}

#[test]
fn default_alignment_is_left() {
    assert_eq!(Align::default(), Align::Left);
}

#[test]
fn first_align_attribute_wins() {
    let attrs = vec![
        Attr::IsCheckbox,
        Attr::Align(Align::Center),
        Attr::Align(Align::Right),
    ];
    assert_eq!(align_of(&attrs), Some(Align::Center));
    assert_eq!(align_of(&vec![Attr::Start(3)]), None);
    assert_eq!(align_of(&vec![]), None);
}

#[test]
fn checkbox_attributes_are_found_anywhere() {
    assert_eq!(checkbox_of(&vec![]), (false, false));
    assert_eq!(checkbox_of(&vec![Attr::IsCheckbox]), (true, false));
    assert_eq!(checkbox_of(&vec![Attr::IsChecked]), (false, true));
    assert_eq!(
        checkbox_of(&vec![Attr::Start(1), Attr::IsChecked, Attr::IsCheckbox]),
        (true, true)
    );
}

#[test]
fn whitespace_is_the_unicode_property() {
    for c in 0..=0x3100u32 {
        if let Some(c) = char::from_u32(c) {
            assert_eq!(char_is_whitespace(c), c.is_whitespace(), "{:?}", c);
        }
    }
    assert!(char_is_whitespace('\u{3000}'));
    assert!(!char_is_whitespace('\u{200B}'));
    assert!(!char_is_whitespace('\u{FEFF}'));
}

#[test]
fn blank_strings() {
    assert!(str_is_blank(""));
    assert!(str_is_blank(" \t\r\n\u{a0}"));
    assert!(!str_is_blank("  x "));
    assert!(!str_is_blank("\u{b7}"));
}

#[test]
fn same_chars_compares_whole_strings() {
    assert!(same_chars("", ""));
    assert!(same_chars("table", "table"));
    assert!(same_chars("h\u{e9}", "h\u{e9}"));
    assert!(!same_chars("table", "tabl"));
    assert!(!same_chars("tabl", "table"));
    assert!(!same_chars("td", "th"));
}

#[test]
fn decimal_strings() {
    assert_eq!(decimal_string(0), "0");
    assert_eq!(decimal_string(7), "7");
    assert_eq!(decimal_string(10), "10");
    assert_eq!(decimal_string(1234567890), "1234567890");
    assert_eq!(decimal_string(18446744073709551616), "18446744073709551616");
    assert_eq!(decimal_string(u128::MAX), u128::MAX.to_string());
}

#[test]
fn characters_of_a_string() {
    assert_eq!(chars_of(""), Vec::<char>::new());
    assert_eq!(chars_of("a\u{e9}\u{1F600}"), vec!['a', '\u{e9}', '\u{1F600}']);
    assert!(chars_are(&chars_of("color"), "color"));
    assert!(!chars_are(&chars_of("colour"), "color"));
    assert!(!chars_are(&chars_of("colo"), "color"));
    assert!(chars_are(&vec![], ""));
}

#[test]
fn slices_and_searches() {
    let v = chars_of("a:b;c");
    assert_eq!(index_of(&v, ':'), 1);
    assert_eq!(index_of(&v, ';'), 3);
    assert_eq!(index_of(&v, '#'), 5);
    assert_eq!(slice_of(&v, 2, 5), vec!['b', ';', 'c']);
    assert_eq!(slice_of(&v, 2, 2), Vec::<char>::new());
}

#[test]
fn trimming_takes_whitespace_off_both_ends() {
    assert_eq!(trimmed(&chars_of("  a b\t\n")), chars_of("a b"));
    assert_eq!(trimmed(&chars_of("a")), chars_of("a"));
    assert_eq!(trimmed(&chars_of(" \u{a0} ")), Vec::<char>::new());
    assert_eq!(trimmed(&vec![]), Vec::<char>::new());
}

#[test]
fn digits_have_their_values() {
    assert_eq!(digit_of('0'), Some(0));
    assert_eq!(digit_of('9'), Some(9));
    assert_eq!(digit_of('a'), Some(10));
    assert_eq!(digit_of('F'), Some(15));
    assert_eq!(digit_of('g'), None);
    assert_eq!(digit_of('/'), None);
    assert_eq!(digit_of(':'), None);
    assert_eq!(digit_of('\u{663}'), None);
}

#[test]
fn numbers_are_read_in_their_radix() {
    assert_eq!(parse_number(&chars_of("0"), 10, 9), Some(0));
    assert_eq!(parse_number(&chars_of("007"), 10, 9), Some(7));
    assert_eq!(parse_number(&chars_of("255"), 10, 255), Some(255));
    assert_eq!(parse_number(&chars_of("256"), 10, 255), None);
    assert_eq!(parse_number(&chars_of("ff"), 16, 255), Some(255));
    assert_eq!(parse_number(&chars_of("FF"), 16, 255), Some(255));
    assert_eq!(parse_number(&chars_of("ff"), 10, 255), None);
    assert_eq!(parse_number(&chars_of("12a"), 10, 1000), None);
    assert_eq!(parse_number(&chars_of(""), 10, 1000), None);
    assert_eq!(parse_number(&chars_of("+1"), 10, 1000), None);
    assert_eq!(parse_number(&chars_of("-1"), 10, 1000), None);
    assert_eq!(parse_number(&chars_of(" 1"), 10, 1000), None);
    assert_eq!(
        parse_number(&chars_of("18446744073709551615"), 10, u64::MAX),
        Some(u64::MAX)
    );
    assert_eq!(parse_number(&chars_of("18446744073709551616"), 10, u64::MAX), None);
    assert_eq!(parse_number(&chars_of("99999999999999999999999999999"), 10, u64::MAX), None);
    assert_eq!(parse_number(&chars_of("101"), 2, 7), Some(5));
}

#[test]
fn known_attributes_are_parsed() {
    assert!(matches!(parse_attribute("align", "left"), Some(Attr::Align(Align::Left))));
    assert!(matches!(parse_attribute("align", "center"), Some(Attr::Align(Align::Center))));
    assert!(matches!(parse_attribute("align", "right"), Some(Attr::Align(Align::Right))));
    assert!(matches!(parse_attribute("type", "checkbox"), Some(Attr::IsCheckbox)));
    assert!(matches!(parse_attribute("checked", ""), Some(Attr::IsChecked)));
    assert!(matches!(parse_attribute("start", "5"), Some(Attr::Start(5))));
    match parse_attribute("href", "https://example.org/a b") {
        Some(Attr::Href(target)) => assert_eq!(target, "https://example.org/a b"),
        other => panic!("expected a link target, found {other:?}"),
    }
    match parse_attribute("id", "user-content-title") {
        Some(Attr::Anchor(name)) => assert_eq!(name, "#user-content-title"),
        other => panic!("expected an anchor, found {other:?}"),
    }
    match parse_attribute("style", "color:#ff0000") {
        Some(Attr::Style(decls)) => assert_eq!(decls, vec![Style::Color(0xFF0000)]),
        other => panic!("expected a style, found {other:?}"),
    }
}

#[test]
fn other_attributes_give_nothing() {
    for (name, value) in [
        ("align", "justify"),
        ("align", "Left"),
        ("type", "text"),
        ("start", ""),
        ("start", "five"),
        ("start", "-1"),
        ("start", "99999999999999999999999999"),
        ("class", "x"),
        ("HREF", "x"),
        ("", ""),
    ] {
        assert!(parse_attribute(name, value).is_none(), "{name}={value}");
    }
}

#[test]
fn inline_styles_are_cut_at_semicolons() {
    assert_eq!(parse_style(""), vec![]);
    assert_eq!(parse_style(";;"), vec![]);
    assert_eq!(
        parse_style("color:#c0c5ce;background-color:#2b303b;"),
        vec![Style::Color(0xC0C5CE), Style::BackgroundColor(0x2B303B)]
    );
    assert_eq!(
        parse_style(" font-weight : bold ; font-style:italic;text-decoration: underline"),
        vec![
            Style::FontWeight(FontWeight::Bold),
            Style::FontStyle(FontStyle::Italic),
            Style::TextDecoration(TextDecoration::Underline),
        ]
    );
    assert_eq!(
        parse_style("font-weight:600;font-style:oblique;text-decoration:none"),
        vec![
            Style::FontWeight(FontWeight::Normal),
            Style::FontStyle(FontStyle::Normal),
            Style::TextDecoration(TextDecoration::Normal),
        ]
    );
}

#[test]
fn declarations_that_say_nothing_known_are_skipped() {
    assert_eq!(
        parse_style("margin:0;color:red;color:#12;colour:#123456;color;:#1;color:#zz;color:#"),
        vec![Style::Color(0x12)]
    );
    assert_eq!(parse_style("color:#ffffffff"), vec![Style::Color(0xFFFF_FFFF)]);
    assert_eq!(parse_style("color:#100000000"), vec![]);
    assert_eq!(parse_style("color: #00ff00 ;x"), vec![Style::Color(0x00FF00)]);
    assert_eq!(parse_style("color:#a:b"), vec![]);
}
