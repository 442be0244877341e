//! The tree interpreter: from an arena of nodes to layout elements.

use crate::anchor::issued;
use crate::color::Theme;
use crate::element::{Element, ElementView};
use crate::interpreter::compose::push_text_box;
use crate::interpreter::flow::FlowProcess;
use crate::interpreter::hir::{arena_wf, Hir, HirNode, TextOrHirNode, TextOrHirNodeView};
use crate::interpreter::laws::{heading_anchors, lemma_heading_anchors_differ};
use crate::interpreter::names::names_document;
use crate::interpreter::model::{
    flow_document, flow_unit, handed_out, headings_document, headings_node,
    lemma_handed_out_none, lemma_handed_out_then, Flow,
};
use crate::interpreter::state::InheritedState;
use crate::text::{TextBox, TextView};
use comrak::Anchorizer;
use vstd::prelude::*;

verus! {

/// What the interpreter is configured with: the theme, and the anchorizer
/// that names the headings of one document.
pub struct AstOpts {
    pub anchorizer: Anchorizer,
    pub theme: Theme,
}

impl AstOpts {
    /// The dark theme and an anchorizer that has named nothing yet.
    pub fn new() -> (opts: AstOpts)
        ensures
            opts.theme == (Theme {
                text_color: 0x9DACBB,
                link_color: 0x4182EB,
                code_color: 0xB38FAC,
            }),
            issued(opts.anchorizer) == Set::<Seq<char>>::empty(),
    {
        AstOpts { anchorizer: Anchorizer::new(), theme: Theme::dark_default() }
    }
}

/// The interpreter.
pub struct Ast {
    pub opts: AstOpts,
}

impl Ast {
    /// An interpreter with the dark theme, whose anchorizer has named
    /// nothing yet.
    pub fn new() -> (ast: Ast)
        ensures
            ast.opts.theme == (Theme {
                text_color: 0x9DACBB,
                link_color: 0x4182EB,
                code_color: 0xB38FAC,
            }),
            issued(ast.opts.anchorizer) == Set::<Seq<char>>::empty(),
    {
        Ast { opts: AstOpts::new() }
    }

    /// Interprets one top-level element of a document: the node at `index`
    /// of the arena `nodes`. The elements of a document are independent of
    /// each other but for the anchorizer, which they share.
    pub fn interpret_node(&mut self, nodes: &[HirNode], index: usize) -> (elements: Vec<Element>)
        requires
            arena_wf(nodes.deep_view()),
            index < nodes.len(),
        ensures
            elements.deep_view() == flow_unit(
                nodes.deep_view(),
                old(self).opts.theme,
                index as int,
                issued(old(self).opts.anchorizer),
            ).output,
            issued(final(self).opts.anchorizer) == flow_unit(
                nodes.deep_view(),
                old(self).opts.theme,
                index as int,
                issued(old(self).opts.anchorizer),
            ).taken,
            final(self).opts.theme == old(self).opts.theme,
            handed_out(
                issued(old(self).opts.anchorizer),
                issued(final(self).opts.anchorizer),
                headings_node(nodes.deep_view(), index as int),
            ),
    {
        let state = InheritedState::with_span_color(self.opts.theme.code_color);
        let mut elements: Vec<Element> = Vec::new();
        let mut text_box = TextBox::new(Vec::new());
        assert(elements.deep_view() =~= Seq::<ElementView>::empty());
        assert(text_box@.texts =~= Seq::<TextView>::empty());
        FlowProcess::process(nodes, &mut elements, &mut self.opts, &mut text_box, index, &state);
        push_text_box(&mut elements, &mut text_box, &state);
        elements
    }

    /// Interprets a document: the top-level elements of the tree in order,
    /// each from an empty box. The anchorizer hands out one new anchor for
    /// each heading, so that no two headings of the document carry the same
    /// anchor, whatever text they hold.
    pub fn interpret(&mut self, hir: Hir) -> (elements: Vec<Element>)
        requires
            hir@.wf(),
        ensures
            elements.deep_view() == flow_document(
                hir@.nodes,
                old(self).opts.theme,
                0,
                Flow::start(issued(old(self).opts.anchorizer)),
            ).output,
            issued(final(self).opts.anchorizer) == flow_document(
                hir@.nodes,
                old(self).opts.theme,
                0,
                Flow::start(issued(old(self).opts.anchorizer)),
            ).taken,
            final(self).opts.theme == old(self).opts.theme,
            handed_out(
                issued(old(self).opts.anchorizer),
                issued(final(self).opts.anchorizer),
                headings_document(hir@.nodes, 0),
            ),
            heading_anchors(
                names_document(
                    hir@.nodes,
                    old(self).opts.theme,
                    0,
                    Flow::start(issued(old(self).opts.anchorizer)),
                ),
            ).no_duplicates(),
    {
        let ghost taken0 = issued(self.opts.anchorizer);
        let nodes = hir.content();
        let ghost model = nodes.deep_view();
        let ghost theme = self.opts.theme;
        let ghost start = Flow::start(issued(self.opts.anchorizer));
        let ghost done: nat = 0;
        proof {
            lemma_handed_out_none(taken0);
        }
        let mut elements: Vec<Element> = Vec::new();
        assert(elements.deep_view() =~= Seq::<ElementView>::empty());
        let root = &nodes[0];
        let mut i: usize = 0;
        while i < root.content.len()
            invariant
                i <= root.content.len(),
                0 < nodes.len(),
                model == nodes.deep_view(),
                arena_wf(model),
                root@ == model[0],
                self.opts.theme == theme,
                handed_out(taken0, issued(self.opts.anchorizer), done),
                done + headings_document(model, i as int) == headings_document(model, 0),
                flow_document(
                    model,
                    theme,
                    i as int,
                    Flow {
                        output: elements.deep_view(),
                        taken: issued(self.opts.anchorizer),
                        ..start
                    },
                ) == flow_document(model, theme, 0, start),
            decreases root.content.len() - i,
        {
            if let TextOrHirNode::Hir(child) = &root.content[i] {
                assert(model[0].content[i as int] == TextOrHirNodeView::Hir(*child));
                let ghost before = elements.deep_view();
                let ghost taken1 = issued(self.opts.anchorizer);
                let mut unit = self.interpret_node(nodes.as_slice(), *child);
                proof {
                    let more = headings_node(model, *child as int);
                    lemma_handed_out_then(
                        taken0,
                        taken1,
                        issued(self.opts.anchorizer),
                        done,
                        more,
                    );
                    done = done + more;
                }
                let ghost added = unit.deep_view();
                elements.append(&mut unit);
                assert(elements.deep_view() =~= before + added);
            } else {
                assert(model[0].content[i as int] is Text);
            }
            i += 1;
        }
        proof {
            lemma_heading_anchors_differ(model, theme, taken0);
        }
        elements
    }
}

} // verus!
