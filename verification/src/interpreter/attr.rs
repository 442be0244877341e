//! The attribute parser: from raw name and value to a parsed attribute.

use crate::chars::{
    chars_are, chars_of, find_char, index_of, number_of, parse_number, same_chars, slice_of,
    trim, trimmed,
};
use crate::interpreter::html::{
    Align, Attr, AttrView, FontStyle, FontWeight, Style, TextDecoration,
};
use vstd::prelude::*;
use vstd::string::*;

verus! {

/// The color that `v` writes: a number sign and then the color as a
/// hexadecimal number that fits in 32 bits.
pub open spec fn color_of(v: Seq<char>) -> Option<u32> {
    if v.len() >= 1 && v[0] == '#' {
        match number_of(v.skip(1), 16, u32::MAX as nat) {
            Some(n) => Some(n as u32),
            None => None,
        }
    } else {
        None
    }
}

/// The declaration that `part` writes: a property and a value with a colon
/// between them, each with any whitespace around it. A property that is not
/// known, and a color that is not one, give nothing; a weight, a slant or a
/// decoration that is not the known keyword is the normal one.
pub open spec fn declaration_of(part: Seq<char>) -> Option<Style> {
    let colon = find_char(part, ':', 0);
    if 0 <= colon < part.len() {
        let name = trim(part.take(colon));
        let value = trim(part.skip(colon + 1));
        if name == "background-color"@ {
            match color_of(value) {
                Some(c) => Some(Style::BackgroundColor(c)),
                None => None,
            }
        } else if name == "color"@ {
            match color_of(value) {
                Some(c) => Some(Style::Color(c)),
                None => None,
            }
        } else if name == "font-weight"@ {
            Some(
                Style::FontWeight(
                    if value == "bold"@ {
                        FontWeight::Bold
                    } else {
                        FontWeight::Normal
                    },
                ),
            )
        } else if name == "font-style"@ {
            Some(
                Style::FontStyle(
                    if value == "italic"@ {
                        FontStyle::Italic
                    } else {
                        FontStyle::Normal
                    },
                ),
            )
        } else if name == "text-decoration"@ {
            Some(
                Style::TextDecoration(
                    if value == "underline"@ {
                        TextDecoration::Underline
                    } else {
                        TextDecoration::Normal
                    },
                ),
            )
        } else {
            None
        }
    } else {
        None
    }
}

/// The declarations that an inline style writes, in order: the style is
/// cut at its semicolons, and each part that writes a declaration gives one.
pub open spec fn style_decls(s: Seq<char>) -> Seq<Style>
    decreases s.len(),
{
    let end = find_char(s, ';', 0);
    let rest = if 0 <= end < s.len() {
        style_decls(s.skip(end + 1))
    } else {
        Seq::empty()
    };
    let part = if 0 <= end <= s.len() {
        s.take(end)
    } else {
        s
    };
    match declaration_of(part) {
        Some(d) => seq![d] + rest,
        None => rest,
    }
}

/// The attribute that a raw name and value stand for, if it is one that the
/// interpreter knows. Names and keywords are matched exactly, in lower case.
pub open spec fn attribute_of(name: Seq<char>, value: Seq<char>) -> Option<AttrView> {
    if name == "align"@ {
        if value == "left"@ {
            Some(AttrView::Align(Align::Left))
        } else if value == "center"@ {
            Some(AttrView::Align(Align::Center))
        } else if value == "right"@ {
            Some(AttrView::Align(Align::Right))
        } else {
            None
        }
    } else if name == "href"@ {
        Some(AttrView::Href(value))
    } else if name == "id"@ {
        Some(AttrView::Anchor(seq!['#'] + value))
    } else if name == "start"@ {
        match number_of(value, 10, usize::MAX as nat) {
            Some(n) => Some(AttrView::Start(n as usize)),
            None => None,
        }
    } else if name == "style"@ {
        Some(AttrView::Style(style_decls(value)))
    } else if name == "type"@ {
        if value == "checkbox"@ {
            Some(AttrView::IsCheckbox)
        } else {
            None
        }
    } else if name == "checked"@ {
        Some(AttrView::IsChecked)
    } else {
        None
    }
}

/// Reads a color.
fn parse_color(v: &Vec<char>) -> (color: Option<u32>)
    ensures
        color == color_of(v@),
{
    if v.len() >= 1 && v[0] == '#' {
        let digits = slice_of(v, 1, v.len());
        assert(digits@ =~= v@.skip(1));
        match parse_number(&digits, 16, 0xFFFF_FFFF) {
            Some(n) => Some(n as u32),
            None => None,
        }
    } else {
        None
    }
}

/// Reads one declaration of an inline style.
fn parse_declaration(part: &Vec<char>) -> (decl: Option<Style>)
    ensures
        decl == declaration_of(part@),
{
    let colon = index_of(part, ':');
    if colon >= part.len() {
        return None;
    }
    let name = trimmed(&slice_of(part, 0, colon));
    let value = trimmed(&slice_of(part, colon + 1, part.len()));
    assert(part@.subrange(0, colon as int) =~= part@.take(colon as int));
    assert(part@.subrange(colon + 1, part@.len() as int) =~= part@.skip(colon + 1));
    if chars_are(&name, "background-color") {
        match parse_color(&value) {
            Some(c) => Some(Style::BackgroundColor(c)),
            None => None,
        }
    } else if chars_are(&name, "color") {
        match parse_color(&value) {
            Some(c) => Some(Style::Color(c)),
            None => None,
        }
    } else if chars_are(&name, "font-weight") {
        Some(
            Style::FontWeight(
                if chars_are(&value, "bold") {
                    FontWeight::Bold
                } else {
                    FontWeight::Normal
                },
            ),
        )
    } else if chars_are(&name, "font-style") {
        Some(
            Style::FontStyle(
                if chars_are(&value, "italic") {
                    FontStyle::Italic
                } else {
                    FontStyle::Normal
                },
            ),
        )
    } else if chars_are(&name, "text-decoration") {
        Some(
            Style::TextDecoration(
                if chars_are(&value, "underline") {
                    TextDecoration::Underline
                } else {
                    TextDecoration::Normal
                },
            ),
        )
    } else {
        None
    }
}

/// Reads the declarations of an inline style.
pub fn parse_style(value: &str) -> (decls: Vec<Style>)
    ensures
        decls@ == style_decls(value@),
{
    let mut rest = chars_of(value);
    let mut decls: Vec<Style> = Vec::new();
    let mut more = true;
    while more
        invariant
            decls@ + (if more {
                style_decls(rest@)
            } else {
                Seq::empty()
            }) == style_decls(value@),
        decreases
                if more {
                    rest.len() + 1
                } else {
                    0
                },
    {
        let ghost before = decls@;
        let ghost tail = style_decls(rest@);
        let end = index_of(&rest, ';');
        let part = slice_of(&rest, 0, end);
        assert(part@ =~= rest@.take(end as int));
        let decl = parse_declaration(&part);
        if let Some(d) = decl {
            decls.push(d);
        }
        if end < rest.len() {
            let next = slice_of(&rest, end + 1, rest.len());
            assert(next@ =~= rest@.skip(end + 1));
            assert(decls@ + style_decls(next@) =~= before + tail);
            rest = next;
        } else {
            assert(decls@ + Seq::<Style>::empty() =~= before + tail);
            more = false;
        }
    }
    assert(decls@ + Seq::<Style>::empty() =~= decls@);
    decls
}

/// Reads one attribute of a start tag from its raw name and value.
pub fn parse_attribute(name: &str, value: &str) -> (attr: Option<Attr>)
    ensures
        match attr {
            Some(a) => attribute_of(name@, value@) == Some(a@),
            None => attribute_of(name@, value@) is None,
        },
{
    if same_chars(name, "align") {
        if same_chars(value, "left") {
            Some(Attr::Align(Align::Left))
        } else if same_chars(value, "center") {
            Some(Attr::Align(Align::Center))
        } else if same_chars(value, "right") {
            Some(Attr::Align(Align::Right))
        } else {
            None
        }
    } else if same_chars(name, "href") {
        Some(Attr::Href(value.to_owned()))
    } else if same_chars(name, "id") {
        proof {
            reveal_strlit("#");
            assert("#"@ =~= seq!['#']);
        }
        let mut anchor = "#".to_owned();
        anchor.append(value);
        Some(Attr::Anchor(anchor))
    } else if same_chars(name, "start") {
        match parse_number(&chars_of(value), 10, usize::MAX as u64) {
            Some(n) => Some(Attr::Start(n as usize)),
            None => None,
        }
    } else if same_chars(name, "style") {
        Some(Attr::Style(parse_style(value)))
    } else if same_chars(name, "type") {
        if same_chars(value, "checkbox") {
            Some(Attr::IsCheckbox)
        } else {
            None
        }
    } else if same_chars(name, "checked") {
        Some(Attr::IsChecked)
    } else {
        None
    }
}

} // verus!
