use markflow::interpreter::hir::{
    arena_is_well_formed, Hir, HirNode, Outcome, StructuralMismatch, TextOrHirNode, Token,
};
use markflow::interpreter::html::{Attr, HeaderType, TagName};

fn start(name: &str) -> Token {
    Token::StartTag { name: name.to_string(), attributes: vec![], self_closing: false }
}

fn end(name: &str) -> Token {
    Token::EndTag { name: name.to_string() }
}

fn run(s: &str) -> Token {
    Token::Text(s.to_string())
}

fn child(node: &HirNode, i: usize) -> usize {
    match &node.content[i] {
        TextOrHirNode::Hir(c) => *c,
        TextOrHirNode::Text(s) => panic!("expected a node, found the text {s:?}"),
    }
}

fn text_of(node: &HirNode, i: usize) -> String {
    match &node.content[i] {
        TextOrHirNode::Text(s) => s.clone(),
        TextOrHirNode::Hir(c) => panic!("expected text, found node {c}"),
    }
}

#[test]
fn new_builder_holds_the_root() {
    let nodes = Hir::new().content();
    assert_eq!(nodes.len(), 1);
    assert_eq!(nodes[0].tag, TagName::Root);
    assert!(nodes[0].attributes.is_empty());
    assert!(nodes[0].content.is_empty());
}

#[test]
fn default_builder_is_a_new_builder() {
    let nodes = Hir::default().content();
    assert_eq!(nodes.len(), 1);
    assert_eq!(nodes[0].tag, TagName::Root);
}

#[test]
fn node_new_has_no_content() {
    let node = HirNode::new(TagName::Anchor, vec![Attr::Href("x".to_string())]);
    assert_eq!(node.tag, TagName::Anchor);
    assert_eq!(node.attributes.len(), 1);
    assert!(node.content.is_empty());
}

#[test]
fn start_tag_adds_a_child_and_opens_it() {
    let mut hir = Hir::new();
    assert_eq!(hir.process_start_tag("p", vec![], false), Some(1));
    assert_eq!(hir.current_node().tag, TagName::Paragraph);
    hir.on_text("hello".to_string());
    assert_eq!(hir.process_start_tag("b", vec![], false), Some(2));
    hir.on_text("bold".to_string());
    assert_eq!(hir.process_end_tag("b"), Ok(()));
    hir.on_text("tail".to_string());
    assert_eq!(hir.process_end_tag("p"), Ok(()));
    assert!(hir.on_end().is_empty());
    let nodes = hir.content();
    assert_eq!(nodes.len(), 3);
    assert_eq!(child(&nodes[0], 0), 1);
    assert_eq!(nodes[1].tag, TagName::Paragraph);
    assert_eq!(nodes[1].content.len(), 3);
    assert_eq!(text_of(&nodes[1], 0), "hello");
    assert_eq!(child(&nodes[1], 1), 2);
    assert_eq!(text_of(&nodes[1], 2), "tail");
    assert_eq!(nodes[2].tag, TagName::BoldOrStrong);
    assert_eq!(text_of(&nodes[2], 0), "bold");
}

#[test]
fn children_have_greater_indices_than_their_parents() {
    let mut hir = Hir::new();
    for name in ["div", "p", "b", "i"] {
        hir.process_start_tag(name, vec![], false);
    }
    hir.on_text("x".to_string());
    let nodes = hir.content();
    for (i, node) in nodes.iter().enumerate() {
        for item in &node.content {
            if let TextOrHirNode::Hir(c) = item {
                assert!(i < *c && *c < nodes.len());
            }
        }
    }
}

#[test]
fn void_element_is_not_opened() {
    let mut hir = Hir::new();
    hir.process_start_tag("p", vec![], false);
    assert_eq!(hir.process_start_tag("br", vec![], false), Some(2));
    assert_eq!(hir.current_node().tag, TagName::Paragraph);
    hir.on_text("after".to_string());
    assert_eq!(hir.process_end_tag("br"), Ok(()));
    assert_eq!(hir.current_node().tag, TagName::Paragraph);
    assert_eq!(hir.process_end_tag("p"), Ok(()));
    let nodes = hir.content();
    assert_eq!(nodes[2].tag, TagName::Break);
    assert!(nodes[2].content.is_empty());
    assert_eq!(text_of(&nodes[1], 1), "after");
}

#[test]
fn self_closing_tag_is_not_opened() {
    let mut hir = Hir::new();
    assert_eq!(hir.process_start_tag("div", vec![], true), Some(1));
    assert_eq!(hir.current_node().tag, TagName::Root);
    assert!(hir.on_end().is_empty());
}

#[test]
fn unknown_start_tag_is_ignored() {
    let mut hir = Hir::new();
    hir.process_start_tag("p", vec![], false);
    assert_eq!(hir.process_start_tag("marquee", vec![], false), None);
    hir.on_text("inside".to_string());
    let nodes = hir.content();
    assert_eq!(nodes.len(), 2);
    assert_eq!(text_of(&nodes[1], 0), "inside");
}

#[test]
fn unknown_end_tag_is_an_error_and_changes_nothing() {
    let mut hir = Hir::new();
    hir.process_start_tag("p", vec![], false);
    assert_eq!(hir.process_end_tag("marquee"), Err(StructuralMismatch::UnknownTag));
    assert_eq!(hir.current_node().tag, TagName::Paragraph);
    assert_eq!(hir.on_end(), vec![TagName::Paragraph]);
}

#[test]
fn mismatched_end_tag_reports_both_tags_and_still_closes() {
    let mut hir = Hir::new();
    hir.process_start_tag("b", vec![], false);
    hir.process_start_tag("i", vec![], false);
    hir.on_text("text".to_string());
    assert_eq!(
        hir.process_end_tag("b"),
        Err(StructuralMismatch::Unexpected {
            expected: TagName::EmphasisOrItalic,
            found: TagName::BoldOrStrong,
        })
    );
    assert_eq!(hir.current_node().tag, TagName::BoldOrStrong);
    assert_eq!(
        hir.process_end_tag("i"),
        Err(StructuralMismatch::Unexpected {
            expected: TagName::BoldOrStrong,
            found: TagName::EmphasisOrItalic,
        })
    );
    assert_eq!(hir.current_node().tag, TagName::Root);
    assert!(hir.on_end().is_empty());
    let nodes = hir.content();
    assert_eq!(nodes.len(), 3);
    assert_eq!(text_of(&nodes[2], 0), "text");
}

#[test]
fn stray_end_tag_keeps_the_root_current() {
    let mut hir = Hir::new();
    assert_eq!(
        hir.process_end_tag("p"),
        Err(StructuralMismatch::Unexpected { expected: TagName::Root, found: TagName::Paragraph })
    );
    assert_eq!(hir.process_end_tag("p"), Err(StructuralMismatch::NothingOpen));
    assert_eq!(hir.current_node().tag, TagName::Root);
    hir.on_text("still here".to_string());
    let nodes = hir.content();
    assert_eq!(text_of(&nodes[0], 0), "still here");
}

#[test]
fn first_newline_of_a_node_is_dropped() {
    let mut hir = Hir::new();
    hir.process_start_tag("pre", vec![], false);
    hir.on_text("\n".to_string());
    hir.on_text("code".to_string());
    hir.on_text("\n".to_string());
    let nodes = hir.content();
    assert_eq!(nodes[1].content.len(), 2);
    assert_eq!(text_of(&nodes[1], 0), "code");
    assert_eq!(text_of(&nodes[1], 1), "\n");
}

#[test]
fn first_text_that_is_not_a_single_newline_is_kept() {
    let mut hir = Hir::new();
    hir.on_text("\n\n".to_string());
    hir.on_text(" ".to_string());
    let nodes = hir.content();
    assert_eq!(text_of(&nodes[0], 0), "\n\n");
    assert_eq!(text_of(&nodes[0], 1), " ");
}

#[test]
fn end_reports_unclosed_tags_outermost_first() {
    let mut hir = Hir::new();
    hir.process_start_tag("div", vec![], false);
    hir.process_start_tag("p", vec![], false);
    hir.process_start_tag("u", vec![], false);
    assert_eq!(hir.on_end(), vec![TagName::Div, TagName::Paragraph, TagName::Underline]);
    assert_eq!(hir.content().len(), 4);
}

#[test]
fn process_token_reports_each_outcome() {
    let mut hir = Hir::new();
    assert!(matches!(hir.process_token(start("h2")), Outcome::Accepted));
    assert!(matches!(hir.process_token(start("blink")), Outcome::UnknownTag));
    assert!(matches!(hir.process_token(run("t")), Outcome::Accepted));
    assert!(matches!(
        hir.process_token(end("p")),
        Outcome::Mismatch(StructuralMismatch::Unexpected {
            expected: TagName::Header(HeaderType::H2),
            found: TagName::Paragraph,
        })
    ));
    assert!(matches!(
        hir.process_token(end("blink")),
        Outcome::Mismatch(StructuralMismatch::UnknownTag)
    ));
    hir.process_token(start("ul"));
    hir.process_token(start("li"));
    match hir.process_token(Token::End) {
        Outcome::Unclosed(tags) => {
            assert_eq!(tags, vec![TagName::UnorderedList, TagName::ListItem])
        }
        other => panic!("expected unclosed tags, found {other:?}"),
    }
}

#[test]
fn start_tag_token_keeps_its_attributes() {
    let mut hir = Hir::new();
    hir.process_token(Token::StartTag {
        name: "ol".to_string(),
        attributes: vec![Attr::Start(5)],
        self_closing: false,
    });
    let nodes = hir.content();
    assert_eq!(nodes[1].tag, TagName::OrderedList);
    assert!(matches!(nodes[1].attributes[..], [Attr::Start(5)]));
}

#[test]
fn well_formed_stream_reports_no_error() {
    let tokens = vec![
        start("div"),
        start("p"),
        run("a"),
        start("br"),
        start("b"),
        run("b"),
        end("b"),
        end("p"),
        start("hr"),
        end("hr"),
        start("ul"),
        start("li"),
        run("c"),
        end("li"),
        end("ul"),
        end("div"),
        Token::End,
    ];
    let mut hir = Hir::new();
    for token in tokens {
        assert!(matches!(hir.process_token(token), Outcome::Accepted));
    }
    assert_eq!(hir.current_node().tag, TagName::Root);
    assert_eq!(hir.content().len(), 8);
}

#[test]
fn built_arena_is_well_formed() {
    let mut hir = Hir::new();
    for name in ["div", "p", "br", "b"] {
        hir.process_start_tag(name, vec![], false);
    }
    hir.on_text("x".to_string());
    assert!(arena_is_well_formed(&hir.content()));
    assert!(arena_is_well_formed(&[]));
}

#[test]
fn backward_and_dangling_references_are_found() {
    let node = |content: Vec<TextOrHirNode>| HirNode {
        tag: TagName::Div,
        attributes: vec![],
        content,
    };
    let forward = vec![
        node(vec![TextOrHirNode::Text("t".to_string()), TextOrHirNode::Hir(1)]),
        node(vec![TextOrHirNode::Hir(2)]),
        node(vec![]),
    ];
    assert!(arena_is_well_formed(&forward));
    let dangling = vec![node(vec![TextOrHirNode::Hir(1)])];
    assert!(!arena_is_well_formed(&dangling));
    let own = vec![node(vec![]), node(vec![TextOrHirNode::Hir(1)])];
    assert!(!arena_is_well_formed(&own));
    let backward = vec![node(vec![TextOrHirNode::Hir(1)]), node(vec![TextOrHirNode::Hir(0)])];
    assert!(!arena_is_well_formed(&backward));
}
