//! The tree builder: from tag and text events to an arena of nodes.

use crate::chars::same_chars;
use crate::interpreter::html::{tag_of_name, Attr, AttrView, TagName};
use crate::text::lemma_deep_view_push;
use vstd::prelude::*;
use vstd::string::*;

verus! {

/// One item of a node's content: literal text, or a child node by its index
/// in the arena.
#[derive(Clone, Debug)]
pub enum TextOrHirNode {
    Text(String),
    Hir(usize),
}

/// The mathematical value of a [`TextOrHirNode`].
pub enum TextOrHirNodeView {
    Text(Seq<char>),
    Hir(usize),
}

impl View for TextOrHirNode {
    type V = TextOrHirNodeView;

    open spec fn view(&self) -> TextOrHirNodeView {
        match self {
            TextOrHirNode::Text(s) => TextOrHirNodeView::Text(s@),
            TextOrHirNode::Hir(i) => TextOrHirNodeView::Hir(*i),
        }
    }
}

impl DeepView for TextOrHirNode {
    type V = TextOrHirNodeView;

    open spec fn deep_view(&self) -> TextOrHirNodeView {
        self@
    }
}

/// One element of the document: its tag kind, its attributes and its content.
#[derive(Clone, Debug)]
pub struct HirNode {
    pub tag: TagName,
    pub attributes: Vec<Attr>,
    pub content: Vec<TextOrHirNode>,
}

/// The mathematical value of a [`HirNode`].
pub struct HirNodeView {
    pub tag: TagName,
    pub attributes: Seq<AttrView>,
    pub content: Seq<TextOrHirNodeView>,
}

impl View for HirNode {
    type V = HirNodeView;

    open spec fn view(&self) -> HirNodeView {
        HirNodeView {
            tag: self.tag,
            attributes: self.attributes.deep_view(),
            content: self.content.deep_view(),
        }
    }
}

impl DeepView for HirNode {
    type V = HirNodeView;

    open spec fn deep_view(&self) -> HirNodeView {
        self@
    }
}

/// Whether every child reference of the arena points forward, at a node that
/// exists. Such an arena is a forest in which each node has a greater index
/// than its parent.
pub open spec fn arena_wf(nodes: Seq<HirNodeView>) -> bool {
    forall|i: int, j: int|
        0 <= i < nodes.len() && 0 <= j < nodes[i].content.len() ==> match #[trigger] nodes[i]
            .content[j] {
            TextOrHirNodeView::Hir(c) => i < c < nodes.len(),
            TextOrHirNodeView::Text(_) => true,
        }
}

impl HirNode {
    /// A node without content.
    pub fn new(tag: TagName, attributes: Vec<Attr>) -> (node: HirNode)
        ensures
            node@ == (HirNodeView {
                tag,
                attributes: attributes.deep_view(),
                content: Seq::empty(),
            }),
    {
        let node = HirNode { tag, attributes, content: Vec::new() };
        assert(node@.content =~= Seq::<TextOrHirNodeView>::empty());
        node
    }
}

/// Whether the child references of one node are in order: each points
/// forward, at a node that exists.
pub open spec fn node_wf(nodes: Seq<HirNodeView>, i: int) -> bool {
    forall|j: int|
        0 <= j < nodes[i].content.len() ==> match #[trigger] nodes[i].content[j] {
            TextOrHirNodeView::Hir(c) => i < c < nodes.len(),
            TextOrHirNodeView::Text(_) => true,
        }
}

/// Tests whether every child reference of the arena points forward, at a
/// node that exists.
pub fn arena_is_well_formed(nodes: &[HirNode]) -> (ok: bool)
    ensures
        ok == arena_wf(nodes.deep_view()),
{
    let ghost model = nodes.deep_view();
    let mut i: usize = 0;
    while i < nodes.len()
        invariant
            i <= nodes.len(),
            model == nodes.deep_view(),
            forall|k: int| 0 <= k < i ==> node_wf(model, k),
        decreases nodes.len() - i,
    {
        let content = &nodes[i].content;
        let mut j: usize = 0;
        while j < content.len()
            invariant
                j <= content.len(),
                i < nodes.len(),
                model == nodes.deep_view(),
                content.deep_view() == model[i as int].content,
                forall|l: int|
                    0 <= l < j ==> match #[trigger] model[i as int].content[l] {
                        TextOrHirNodeView::Hir(c) => i < c < model.len(),
                        TextOrHirNodeView::Text(_) => true,
                    },
            decreases content.len() - j,
        {
            if let TextOrHirNode::Hir(c) = &content[j] {
                assert(model[i as int].content[j as int] == TextOrHirNodeView::Hir(*c));
                if !(i < *c && *c < nodes.len()) {
                    return false;
                }
            } else {
                assert(model[i as int].content[j as int] is Text);
            }
            j += 1;
        }
        assert(node_wf(model, i as int));
        i += 1;
    }
    assert forall|i: int, j: int|
        0 <= i < model.len() && 0 <= j < model[i].content.len() implies match #[trigger] model[i]
        .content[j] {
        TextOrHirNodeView::Hir(c) => i < c < model.len(),
        TextOrHirNodeView::Text(_) => true,
    } by {
        assert(node_wf(model, i));
    }
    true
}

/// An arena stays in order when a content item is appended to its node
/// `at` and nodes without content are appended to it, provided that the
/// item, if it is a child reference, points forward at a node of the new
/// arena.
pub proof fn lemma_arena_extended(
    before: Seq<HirNodeView>,
    after: Seq<HirNodeView>,
    at: int,
    item: TextOrHirNodeView,
)
    requires
        arena_wf(before),
        0 <= at < before.len() <= after.len(),
        forall|i: int| 0 <= i < before.len() && i != at ==> after[i] == before[i],
        after[at].content == before[at].content.push(item),
        item matches TextOrHirNodeView::Hir(c) ==> at < c < after.len(),
        forall|i: int| before.len() <= i < after.len() ==> (#[trigger] after[i]).content.len() == 0,
    ensures
        arena_wf(after),
{
    assert forall|i: int, j: int|
        0 <= i < after.len() && 0 <= j < after[i].content.len() implies match #[trigger] after[i]
        .content[j] {
        TextOrHirNodeView::Hir(c) => i < c < after.len(),
        TextOrHirNodeView::Text(_) => true,
    } by {
        if i < before.len() && !(i == at && j == before[at].content.len()) {
            assert(after[i].content[j] == before[i].content[j]);
        }
    }
}

/// One event of the token stream.
#[derive(Clone, Debug)]
pub enum Token {
    /// A start tag, with its raw name and its parsed attributes.
    StartTag { name: String, attributes: Vec<Attr>, self_closing: bool },
    /// An end tag, with its raw name.
    EndTag { name: String },
    /// A run of text.
    Text(String),
    /// The end of the stream.
    End,
}

/// The mathematical value of a [`Token`].
pub enum TokenView {
    StartTag { name: Seq<char>, attributes: Seq<AttrView>, self_closing: bool },
    EndTag { name: Seq<char> },
    Text(Seq<char>),
    End,
}

impl View for Token {
    type V = TokenView;

    open spec fn view(&self) -> TokenView {
        match self {
            Token::StartTag { name, attributes, self_closing } => TokenView::StartTag {
                name: name@,
                attributes: attributes.deep_view(),
                self_closing: *self_closing,
            },
            Token::EndTag { name } => TokenView::EndTag { name: name@ },
            Token::Text(s) => TokenView::Text(s@),
            Token::End => TokenView::End,
        }
    }
}

impl DeepView for Token {
    type V = TokenView;

    open spec fn deep_view(&self) -> TokenView {
        self@
    }
}

/// Why an end tag closed nothing properly.
#[derive(Clone, Copy, Debug, PartialEq, Eq, Structural)]
pub enum StructuralMismatch {
    /// The name of the end tag is not a recognized one.
    UnknownTag,
    /// No element was open.
    NothingOpen,
    /// The innermost open element has another tag.
    Unexpected { expected: TagName, found: TagName },
}

/// What the builder reports after one token.
#[derive(Clone, Debug)]
pub enum Outcome {
    /// The token was taken in.
    Accepted,
    /// A start tag of an unknown name was ignored.
    UnknownTag,
    /// An end tag did not match the innermost open element.
    Mismatch(StructuralMismatch),
    /// The stream ended while these elements were open, outermost first.
    Unclosed(Vec<TagName>),
}

/// The mathematical value of an [`Outcome`].
pub enum OutcomeView {
    Accepted,
    UnknownTag,
    Mismatch(StructuralMismatch),
    Unclosed(Seq<TagName>),
}

impl View for Outcome {
    type V = OutcomeView;

    open spec fn view(&self) -> OutcomeView {
        match self {
            Outcome::Accepted => OutcomeView::Accepted,
            Outcome::UnknownTag => OutcomeView::UnknownTag,
            Outcome::Mismatch(e) => OutcomeView::Mismatch(*e),
            Outcome::Unclosed(tags) => OutcomeView::Unclosed(tags@),
        }
    }
}

impl OutcomeView {
    /// How many structural errors the outcome reports: one for a mismatched
    /// end tag, one for each element left open at the end.
    pub open spec fn errors(self) -> nat {
        match self {
            OutcomeView::Mismatch(_) => 1,
            OutcomeView::Unclosed(tags) => tags.len(),
            _ => 0,
        }
    }
}

/// The tree builder. It owns the arena of nodes, and while the tree is
/// under construction two stacks: the indices of the open nodes, and the
/// tags that await their end tag.
#[derive(Clone, Debug)]
pub struct Hir {
    nodes: Vec<HirNode>,
    parents: Vec<usize>,
    to_close: Vec<TagName>,
}

/// The mathematical value of a [`Hir`].
pub struct HirView {
    /// The arena. Node 0 is the root.
    pub nodes: Seq<HirNodeView>,
    /// The indices of the open nodes, innermost last. The root stays at the
    /// bottom.
    pub parents: Seq<usize>,
    /// The tags that await their end tag, innermost last.
    pub to_close: Seq<TagName>,
}

impl View for Hir {
    type V = HirView;

    closed spec fn view(&self) -> HirView {
        HirView {
            nodes: self.nodes.deep_view(),
            parents: self.parents@,
            to_close: self.to_close@,
        }
    }
}

impl HirView {
    /// The builder before the first token: the root alone, open.
    pub open spec fn new() -> HirView {
        HirView {
            nodes: seq![
                HirNodeView { tag: TagName::Root, attributes: Seq::empty(), content: Seq::empty() },
            ],
            parents: seq![0usize],
            to_close: seq![TagName::Root],
        }
    }

    /// The invariant of the builder: the arena holds the root and has only
    /// forward references, and every open node exists. The two stacks move
    /// together: the root's tag awaits its end only at the bottom of the
    /// closing stack, and as long as it stands there each awaited tag has
    /// its node on the parent stack, the root's included; once it has been
    /// taken off, the parent stack holds the root besides.
    pub open spec fn wf(self) -> bool {
        &&& 1 <= self.nodes.len() <= usize::MAX
        &&& self.nodes[0].tag == TagName::Root
        &&& arena_wf(self.nodes)
        &&& self.parents.len() >= 1
        &&& forall|i: int|
            0 <= i < self.parents.len() ==> #[trigger] self.parents[i] < self.nodes.len()
        &&& self.parents.len() >= self.to_close.len()
        &&& forall|i: int|
            1 <= i < self.to_close.len() ==> #[trigger] self.to_close[i] != TagName::Root
        &&& self.parents.len() == if self.root_awaited() {
            self.to_close.len()
        } else {
            self.to_close.len() + 1
        }
    }

    /// Whether the root's tag still stands at the bottom of the closing
    /// stack.
    pub open spec fn root_awaited(self) -> bool {
        self.to_close.len() >= 1 && self.to_close[0] == TagName::Root
    }

    /// The index of the node that takes the next content item.
    pub open spec fn current(self) -> int {
        self.parents.last() as int
    }

    /// The arena with one more item at the end of the current node's content.
    pub open spec fn append(self, item: TextOrHirNodeView) -> Seq<HirNodeView> {
        let node = self.nodes[self.current()];
        self.nodes.update(self.current(), HirNodeView { content: node.content.push(item), ..node })
    }

    /// The parent stack after an end tag took effect: one shorter, unless
    /// only the root is left.
    pub open spec fn parents_popped(self) -> Seq<usize> {
        if self.parents.len() > 1 {
            self.parents.drop_last()
        } else {
            self.parents
        }
    }

    /// The builder after a start tag. An unknown name changes nothing. A
    /// known one adds a node to the arena, as the next child of the current
    /// node; unless the element is void or the tag closes itself, the node
    /// becomes the current one and its tag awaits an end tag.
    pub open spec fn start_tag(
        self,
        name: Seq<char>,
        attributes: Seq<AttrView>,
        self_closing: bool,
    ) -> HirView {
        match tag_of_name(name) {
            None => self,
            Some(tag) => {
                let index = self.nodes.len() as usize;
                let nodes = self.append(TextOrHirNodeView::Hir(index)).push(
                    HirNodeView { tag, attributes, content: Seq::empty() },
                );
                if self_closing || tag.spec_is_void() {
                    HirView { nodes, ..self }
                } else {
                    HirView {
                        nodes,
                        parents: self.parents.push(index),
                        to_close: self.to_close.push(tag),
                    }
                }
            },
        }
    }

    /// What is wrong with an end tag, if anything.
    pub open spec fn end_tag_error(self, name: Seq<char>) -> Option<StructuralMismatch> {
        match tag_of_name(name) {
            None => Some(StructuralMismatch::UnknownTag),
            Some(tag) => if tag.spec_is_void() {
                None
            } else if self.to_close.len() == 0 {
                Some(StructuralMismatch::NothingOpen)
            } else if self.to_close.last() != tag {
                Some(StructuralMismatch::Unexpected { expected: self.to_close.last(), found: tag })
            } else {
                None
            },
        }
    }

    /// The builder after an end tag. An unknown name and the name of a void
    /// element change nothing. Otherwise the innermost awaited tag is taken
    /// off, whether it matches or not, and with it the current node.
    pub open spec fn end_tag(self, name: Seq<char>) -> HirView {
        match tag_of_name(name) {
            None => self,
            Some(tag) => if tag.spec_is_void() || self.to_close.len() == 0 {
                self
            } else {
                HirView {
                    parents: self.parents_popped(),
                    to_close: self.to_close.drop_last(),
                    ..self
                }
            },
        }
    }

    /// The builder after a run of text. The run becomes the next content item
    /// of the current node, unless it is a single newline that would be the
    /// node's first content item.
    pub open spec fn text(self, s: Seq<char>) -> HirView {
        if s == seq!['\n'] && self.nodes[self.current()].content.len() == 0 {
            self
        } else {
            HirView { nodes: self.append(TextOrHirNodeView::Text(s)), ..self }
        }
    }

    /// The tags that are still open, outermost first: all that await an end
    /// tag but for the bottom entry, which is the root's.
    pub open spec fn unclosed(self) -> Seq<TagName> {
        if self.to_close.len() >= 1 {
            self.to_close.subrange(1, self.to_close.len() as int)
        } else {
            Seq::empty()
        }
    }

    /// The builder after one token.
    pub open spec fn token(self, token: TokenView) -> HirView {
        match token {
            TokenView::StartTag { name, attributes, self_closing } => self.start_tag(
                name,
                attributes,
                self_closing,
            ),
            TokenView::EndTag { name } => self.end_tag(name),
            TokenView::Text(s) => self.text(s),
            TokenView::End => self,
        }
    }

    /// What the builder reports after one token.
    pub open spec fn outcome(self, token: TokenView) -> OutcomeView {
        match token {
            TokenView::StartTag { name, .. } => if tag_of_name(name) is None {
                OutcomeView::UnknownTag
            } else {
                OutcomeView::Accepted
            },
            TokenView::EndTag { name } => match self.end_tag_error(name) {
                Some(e) => OutcomeView::Mismatch(e),
                None => OutcomeView::Accepted,
            },
            TokenView::Text(_) => OutcomeView::Accepted,
            TokenView::End => if self.unclosed().len() == 0 {
                OutcomeView::Accepted
            } else {
                OutcomeView::Unclosed(self.unclosed())
            },
        }
    }

    /// The builder after the tokens from `lo` up to, but without, `hi`.
    pub open spec fn run(self, tokens: Seq<TokenView>, lo: int, hi: int) -> HirView
        decreases hi - lo,
    {
        if 0 <= lo < hi <= tokens.len() {
            self.token(tokens[lo]).run(tokens, lo + 1, hi)
        } else {
            self
        }
    }

    /// How many structural errors the builder reports for the tokens from
    /// `lo` up to, but without, `hi`.
    pub open spec fn run_errors(self, tokens: Seq<TokenView>, lo: int, hi: int) -> nat
        decreases hi - lo,
    {
        if 0 <= lo < hi <= tokens.len() {
            self.outcome(tokens[lo]).errors() + self.token(tokens[lo]).run_errors(
                tokens,
                lo + 1,
                hi,
            )
        } else {
            0
        }
    }
}

impl Hir {
    /// A builder that holds the root alone.
    pub fn new() -> (hir: Hir)
        ensures
            hir@ == HirView::new(),
            hir@.wf(),
    {
        let root = HirNode::new(TagName::Root, Vec::new());
        let mut nodes = Vec::new();
        nodes.push(root);
        let mut parents = Vec::new();
        parents.push(0usize);
        let mut to_close = Vec::new();
        to_close.push(TagName::Root);
        let hir = Hir { nodes, parents, to_close };
        assert(hir@.nodes =~= HirView::new().nodes) by {
            assert(root@.attributes =~= Seq::<AttrView>::empty());
        }
        assert(hir@.parents =~= HirView::new().parents);
        assert(hir@.to_close =~= HirView::new().to_close);
        hir
    }

    /// The arena: node 0 is the root, and every child reference points
    /// forward at a node of the arena.
    pub fn content(self) -> (nodes: Vec<HirNode>)
        requires
            self@.wf(),
        ensures
            nodes.deep_view() == self@.nodes,
            arena_wf(nodes.deep_view()),
            nodes.len() >= 1,
            nodes[0].tag == TagName::Root,
    {
        self.nodes
    }

    /// The node that takes the next content item: the innermost open one.
    pub fn current_node(&self) -> (node: &HirNode)
        requires
            self@.wf(),
        ensures
            node@ == self@.nodes[self@.current()],
    {
        &self.nodes[self.parents[self.parents.len() - 1]]
    }

    /// Appends a content item to the current node.
    fn append(&mut self, item: TextOrHirNode)
        requires
            old(self)@.wf(),
        ensures
            final(self)@ == (HirView { nodes: old(self)@.append(item@), ..old(self)@ }),
            final(self).nodes.len() == old(self).nodes.len(),
    {
        let current = self.parents[self.parents.len() - 1];
        let ghost before = self.nodes;
        self.nodes[current].content.push(item);
        proof {
            lemma_deep_view_push(
                before[current as int].content,
                self.nodes[current as int].content,
                item,
            );
            assert(self.nodes.deep_view() =~= old(self)@.append(item@));
        }
    }

    /// Takes in a start tag.
    ///
    /// Returns the index of the node that the tag created, or `None` if the
    /// name is unknown: such a tag is ignored, and what follows it goes to
    /// the node that was current.
    pub fn process_start_tag(
        &mut self,
        name: &str,
        attributes: Vec<Attr>,
        self_closing: bool,
    ) -> (index: Option<usize>)
        requires
            old(self)@.wf(),
        ensures
            final(self)@ == old(self)@.start_tag(name@, attributes.deep_view(), self_closing),
            final(self)@.wf(),
            match index {
                Some(i) => tag_of_name(name@) is Some && i == old(self)@.nodes.len(),
                None => tag_of_name(name@) is None,
            },
    {
        let tag = match TagName::from_name(name) {
            Some(tag) => tag,
            None => {
                return None;
            },
        };
        let index = self.nodes.len();
        self.append(TextOrHirNode::Hir(index));
        let node = HirNode::new(tag, attributes);
        let ghost before = self.nodes;
        self.nodes.push(node);
        proof {
            lemma_deep_view_push(before, self.nodes, node);
        }
        if !(self_closing || tag.is_void()) {
            self.parents.push(index);
            self.to_close.push(tag);
        }
        proof {
            assert(self@.nodes.len() == self.nodes.len());
            lemma_arena_extended(
                old(self)@.nodes,
                self@.nodes,
                old(self)@.current(),
                TextOrHirNodeView::Hir(index),
            );
        }
        Some(index)
    }

    /// Takes in an end tag.
    ///
    /// The name of a void element closes nothing and is accepted. Any other
    /// known name takes the innermost awaited tag off, and with it the
    /// current node, though the root stays; it is an error if that tag is
    /// another one, or if none is awaited.
    pub fn process_end_tag(&mut self, name: &str) -> (result: Result<(), StructuralMismatch>)
        requires
            old(self)@.wf(),
        ensures
            final(self)@ == old(self)@.end_tag(name@),
            final(self)@.wf(),
            match result {
                Ok(_) => old(self)@.end_tag_error(name@) is None,
                Err(e) => old(self)@.end_tag_error(name@) == Some(e),
            },
    {
        let tag = match TagName::from_name(name) {
            Some(tag) => tag,
            None => {
                return Err(StructuralMismatch::UnknownTag);
            },
        };
        if tag.is_void() {
            return Ok(());
        }
        let expected = match self.to_close.pop() {
            Some(expected) => expected,
            None => {
                assert(self.to_close@ =~= old(self).to_close@);
                return Err(StructuralMismatch::NothingOpen);
            },
        };
        if self.parents.len() > 1 {
            self.parents.pop();
        }
        assert(self.to_close@ =~= old(self).to_close@.drop_last());
        assert(self.parents@ =~= old(self)@.parents_popped());
        if tag != expected {
            return Err(StructuralMismatch::Unexpected { expected, found: tag });
        }
        Ok(())
    }

    /// Takes in a run of text. A single newline that would be the first
    /// content item of the current node is dropped.
    pub fn on_text(&mut self, string: String)
        requires
            old(self)@.wf(),
        ensures
            final(self)@ == old(self)@.text(string@),
            final(self)@.wf(),
    {
        proof {
            reveal_strlit("\n");
            assert("\n"@ =~= seq!['\n']);
        }
        if same_chars(string.as_str(), "\n") && self.current_node().content.len() == 0 {
            return ;
        }
        self.append(TextOrHirNode::Text(string));
        proof {
            lemma_arena_extended(
                old(self)@.nodes,
                self@.nodes,
                old(self)@.current(),
                TextOrHirNodeView::Text(string@),
            );
        }
    }

    /// Takes in the end of the stream: reports the elements that are still
    /// open, outermost first. Nothing is closed by force.
    pub fn on_end(&self) -> (unclosed: Vec<TagName>)
        ensures
            unclosed@ == self@.unclosed(),
    {
        let mut unclosed = Vec::new();
        let mut i: usize = 1;
        while i < self.to_close.len()
            invariant
                1 <= i,
                i <= self.to_close.len() || self.to_close.len() == 0,
                self.to_close.len() >= 1 ==> unclosed@ == self.to_close@.subrange(1, i as int),
                self.to_close.len() == 0 ==> unclosed@ == Seq::<TagName>::empty(),
            decreases self.to_close.len() - i,
        {
            unclosed.push(self.to_close[i]);
            assert(unclosed@ =~= self.to_close@.subrange(1, i + 1));
            i += 1;
        }
        assert(self.to_close.len() >= 1 ==> unclosed@ =~= self@.unclosed());
        unclosed
    }

    /// Takes in one token.
    pub fn process_token(&mut self, token: Token) -> (outcome: Outcome)
        requires
            old(self)@.wf(),
        ensures
            final(self)@ == old(self)@.token(token@),
            final(self)@.wf(),
            outcome@ == old(self)@.outcome(token@),
    {
        match token {
            Token::StartTag { name, attributes, self_closing } => {
                match self.process_start_tag(name.as_str(), attributes, self_closing) {
                    Some(_) => Outcome::Accepted,
                    None => Outcome::UnknownTag,
                }
            },
            Token::EndTag { name } => {
                match self.process_end_tag(name.as_str()) {
                    Ok(_) => Outcome::Accepted,
                    Err(e) => Outcome::Mismatch(e),
                }
            },
            Token::Text(string) => {
                self.on_text(string);
                Outcome::Accepted
            },
            Token::End => {
                let unclosed = self.on_end();
                if unclosed.len() == 0 {
                    Outcome::Accepted
                } else {
                    Outcome::Unclosed(unclosed)
                }
            },
        }
    }
}

impl Default for Hir {
    fn default() -> (hir: Hir)
        ensures
            hir@ == HirView::new(),
            hir@.wf(),
    {
        Hir::new()
    }
}

} // verus!
