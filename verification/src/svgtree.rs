use vstd::prelude::*;
use crate::names::{AId, EId};
use crate::number::Number;
use crate::style::{Fill, PathRef, Stroke};

verus! {

/// Index of a node. Nodes are numbered in document order, the root being 0.
pub type NodeId = usize;

/// What a node is.
#[derive(Clone, Copy, Debug, PartialEq, Eq, Structural)]
pub enum NodeKind {
    Root,
    Element,
    Text,
}

/// An outline to lay text along, and where on it the text starts.
#[derive(Clone, Copy, Debug, PartialEq, Eq, Structural)]
pub struct TextPath {
    pub start_offset: Number,
    pub path: PathRef,
}

/// One attribute of an element, as written in the source.
#[derive(Debug)]
pub struct Attribute {
    pub id: AId,
    pub value: String,
}

/// Mathematical model of an [`Attribute`].
pub struct AttrView {
    pub id: AId,
    pub value: Seq<char>,
}

impl View for Attribute {
    type V = AttrView;

    open spec fn view(&self) -> AttrView {
        AttrView { id: self.id, value: self.value@ }
    }
}

/// The models of a run of attributes.
pub open spec fn attrs_view(attrs: Seq<Attribute>) -> Seq<AttrView> {
    Seq::new(attrs.len(), |i: int| attrs[i]@)
}

/// Value of the first attribute named `aid`.
pub open spec fn lookup(attrs: Seq<AttrView>, aid: AId) -> Option<Seq<char>>
    decreases attrs.len(),
{
    if attrs.len() == 0 {
        None
    } else if attrs[0].id == aid {
        Some(attrs[0].value)
    } else {
        lookup(attrs.drop_first(), aid)
    }
}

/// Bit pattern of minus one, the value that `kerning` has where nothing sets
/// it.
pub const KERNING_INITIAL_BITS: u32 = 0xBF80_0000;

/// What was worked out for an element from its attributes and surroundings:
/// lengths in user space, paints, and whether it is rendered at all.
#[derive(Debug)]
pub struct Resolved {
    /// Nothing but its own `display` can keep the element from being
    /// rendered: its transform can be applied and its conditions are met.
    pub visible: bool,
    pub font_size: Number,
    pub kerning: Number,
    pub letter_spacing: Number,
    pub word_spacing: Number,
    pub text_length: Option<Number>,
    /// Present when `baseline-shift` is a length or a percentage.
    pub baseline_shift: Option<Number>,
    pub fill: Option<Fill>,
    pub stroke: Option<Stroke>,
    pub x: Option<Vec<Number>>,
    pub y: Option<Vec<Number>>,
    pub dx: Option<Vec<Number>>,
    pub dy: Option<Vec<Number>>,
    pub rotate: Option<Vec<Number>>,
    /// Present on a `textPath` whose reference leads to a usable outline.
    pub text_path: Option<TextPath>,
}

/// Mathematical model of [`Resolved`].
pub struct ResolvedView {
    pub visible: bool,
    pub font_size: Number,
    pub kerning: Number,
    pub letter_spacing: Number,
    pub word_spacing: Number,
    pub text_length: Option<Number>,
    pub baseline_shift: Option<Number>,
    pub fill: Option<Fill>,
    pub stroke: Option<Stroke>,
    pub x: Option<Seq<Number>>,
    pub y: Option<Seq<Number>>,
    pub dx: Option<Seq<Number>>,
    pub dy: Option<Seq<Number>>,
    pub rotate: Option<Seq<Number>>,
    pub text_path: Option<TextPath>,
}

/// The model of an optional list.
pub open spec fn list_view(list: Option<Vec<Number>>) -> Option<Seq<Number>> {
    match list {
        Some(v) => Some(v@),
        None => None,
    }
}

/// The model of an optional string.
pub open spec fn string_view(s: Option<String>) -> Option<Seq<char>> {
    match s {
        Some(v) => Some(v@),
        None => None,
    }
}

/// The model of an optional string slice.
pub open spec fn str_view(s: Option<&str>) -> Option<Seq<char>> {
    match s {
        Some(v) => Some(v@),
        None => None,
    }
}

impl View for Resolved {
    type V = ResolvedView;

    open spec fn view(&self) -> ResolvedView {
        ResolvedView {
            visible: self.visible,
            font_size: self.font_size,
            kerning: self.kerning,
            letter_spacing: self.letter_spacing,
            word_spacing: self.word_spacing,
            text_length: self.text_length,
            baseline_shift: self.baseline_shift,
            fill: self.fill,
            stroke: self.stroke,
            x: list_view(self.x),
            y: list_view(self.y),
            dx: list_view(self.dx),
            dy: list_view(self.dy),
            rotate: list_view(self.rotate),
            text_path: self.text_path,
        }
    }
}

impl ResolvedView {
    /// Visible, no lists, no paints, `kerning` at its initial value of minus
    /// one and every other length zero but `font_size`.
    pub open spec fn plain(font_size: Number) -> ResolvedView {
        ResolvedView {
            visible: true,
            font_size,
            kerning: Number { bits: KERNING_INITIAL_BITS },
            letter_spacing: Number { bits: 0 },
            word_spacing: Number { bits: 0 },
            text_length: None,
            baseline_shift: None,
            fill: None,
            stroke: None,
            x: None,
            y: None,
            dx: None,
            dy: None,
            rotate: None,
            text_path: None,
        }
    }
}

impl Resolved {
    /// Visible, no lists, no paints, `kerning` at its initial value of minus
    /// one and every other length zero but `font_size`.
    pub fn plain(font_size: Number) -> (r: Resolved)
        ensures
            r@ == ResolvedView::plain(font_size),
    {
        Resolved {
            visible: true,
            font_size,
            kerning: Number { bits: KERNING_INITIAL_BITS },
            letter_spacing: Number { bits: 0 },
            word_spacing: Number { bits: 0 },
            text_length: None,
            baseline_shift: None,
            fill: None,
            stroke: None,
            x: None,
            y: None,
            dx: None,
            dy: None,
            rotate: None,
            text_path: None,
        }
    }
}

/// Mathematical model of a node.
pub struct NodeView {
    pub kind: NodeKind,
    /// Present on elements only.
    pub tag: Option<EId>,
    /// Index of the parent; the root is its own parent.
    pub parent: int,
    /// Index just past the node's last descendant, or 0 while the node is
    /// still open.
    pub end: int,
    pub attrs: Seq<AttrView>,
    /// Characters of a text node; empty otherwise.
    pub text: Seq<char>,
    pub title: Option<Seq<char>>,
    pub resolved: ResolvedView,
}

/// Mathematical model of a [`Document`]: the nodes in document order, and the
/// chain of elements that are still open, outermost first.
pub struct DocView {
    pub nodes: Seq<NodeView>,
    pub open: Seq<int>,
}

impl DocView {
    pub open spec fn len(self) -> int {
        self.nodes.len() as int
    }

    pub open spec fn valid(self, i: int) -> bool {
        0 <= i < self.nodes.len()
    }

    /// The node exists and all of its descendants are known.
    pub open spec fn closed(self, i: int) -> bool {
        self.valid(i) && self.nodes[i].end != 0
    }

    /// Index below which the `k`-th open element's finished children lie.
    pub open spec fn upper(self, k: int) -> int {
        if k + 1 < self.open.len() {
            self.open[k + 1]
        } else {
            self.nodes.len() as int
        }
    }

    pub open spec fn node_wf(self, i: int) -> bool {
        let n = self.nodes[i];
        &&& 0 <= n.parent
        &&& (i == 0 ==> n.kind == NodeKind::Root && n.parent == 0)
        &&& (i > 0 ==> n.kind != NodeKind::Root && n.parent < i && self.nodes[n.parent].kind
            != NodeKind::Text && (self.nodes[n.parent].end == 0 || i < self.nodes[n.parent].end))
        &&& (n.kind == NodeKind::Element <==> n.tag is Some)
        &&& (n.kind != NodeKind::Text ==> n.text.len() == 0)
        &&& (n.kind == NodeKind::Text ==> n.end == i + 1)
        &&& (n.end == 0 || i < n.end <= self.nodes.len())
        &&& (n.end != 0 ==> forall|j: int|
            i < j < n.end ==> 0 < (#[trigger] self.nodes[j]).end <= n.end)
        &&& forall|k: int| n.parent < k < i ==> 0 < (#[trigger] self.nodes[k]).end <= i
    }

    /// Node `c` is a child of node `i`.
    pub open spec fn is_child(self, i: int, c: int) -> bool {
        self.valid(i) && i < c < self.nodes[i].end && self.nodes[c].parent == i
    }

    pub open spec fn open_wf(self) -> bool {
        &&& self.open.len() >= 1
        &&& self.open[0] == 0
        &&& forall|k: int|
            0 <= k < self.open.len() ==> 0 <= (#[trigger] self.open[k]) < self.nodes.len()
                && self.nodes[self.open[k]].end == 0 && self.nodes[self.open[k]].kind
                != NodeKind::Text
        &&& forall|k: int, m: int|
            0 <= k < m < self.open.len() ==> (#[trigger] self.open[k]) < (#[trigger] self.open[m])
        &&& forall|k: int, j: int|
            #![trigger self.open[k], self.nodes[j]]
            0 <= k < self.open.len() && self.open[k] < j < self.upper(k) ==> self.nodes[j].end
                != 0
    }

    /// Number of characters in the text nodes with indices in `[a, b)`.
    pub open spec fn chars_in(self, a: int, b: int) -> nat
        decreases b - a,
    {
        if a >= b {
            0
        } else {
            self.chars_in(a, b - 1) + self.nodes[b - 1].text.len()
        }
    }

    /// Number of characters in the text nodes at or below node `i`.
    pub open spec fn count_chars(self, i: int) -> nat {
        self.chars_in(i, self.nodes[i].end)
    }

    /// Nodes form a tree laid out in document order, every node comes after
    /// its parent and after all that lies below its elder siblings, finished subtrees are
    /// contiguous and nested, and the bytes of all text, at four to a
    /// character at most, can be counted in a `usize`.
    pub open spec fn wf(self) -> bool {
        &&& self.nodes.len() >= 1
        &&& forall|i: int| 0 <= i < self.nodes.len() ==> self.node_wf(i)
        &&& self.open_wf()
        &&& 4 * self.chars_in(0, self.len()) <= usize::MAX
    }

    /// The innermost open element.
    pub open spec fn top(self) -> int {
        self.open.last()
    }

    /// Value of attribute `aid` on node `i` itself.
    pub open spec fn attribute(self, i: int, aid: AId) -> Option<Seq<char>> {
        lookup(self.nodes[i].attrs, aid)
    }

    /// The nearest of node `i` and its ancestors that carries attribute `aid`.
    pub open spec fn find_attribute_node(self, i: int, aid: AId) -> Option<int>
        decreases i,
    {
        if !self.valid(i) {
            None
        } else if self.attribute(i, aid) is Some {
            Some(i)
        } else if 0 <= self.nodes[i].parent < i {
            self.find_attribute_node(self.nodes[i].parent, aid)
        } else {
            None
        }
    }

    /// Value of attribute `aid` as node `i` inherits it.
    pub open spec fn find_attribute(self, i: int, aid: AId) -> Option<Seq<char>> {
        match self.find_attribute_node(i, aid) {
            Some(n) => self.attribute(n, aid),
            None => None,
        }
    }

    /// Node `i` is the first node with tag `tag`.
    pub open spec fn first_with_tag(self, i: int, tag: EId) -> bool {
        &&& self.valid(i)
        &&& self.nodes[i].tag == Some(tag)
        &&& forall|j: int| 0 <= j < i ==> (#[trigger] self.nodes[j]).tag != Some(tag)
    }

    /// Node `i` is the first node whose `id` is `id`.
    pub open spec fn first_with_id(self, i: int, id: Seq<char>) -> bool {
        &&& self.valid(i)
        &&& self.attribute(i, AId::Id) == Some(id)
        &&& forall|j: int| 0 <= j < i ==> #[trigger] self.attribute(j, AId::Id) != Some(id)
    }

    /// No node has the `id` `id`.
    pub open spec fn no_such_id(self, id: Seq<char>) -> bool {
        forall|j: int| 0 <= j < self.nodes.len() ==> #[trigger] self.attribute(j, AId::Id) != Some(id)
    }

    /// A document that holds only its root.
    pub open spec fn empty() -> DocView {
        DocView {
            nodes: seq![
                NodeView {
                    kind: NodeKind::Root,
                    tag: None,
                    parent: 0,
                    end: 0,
                    attrs: Seq::empty(),
                    text: Seq::empty(),
                    title: None,
                    resolved: ResolvedView::plain(Number { bits: 0 }),
                },
            ],
            open: seq![0int],
        }
    }

    /// The document after a new element is opened inside the innermost open
    /// one.
    pub open spec fn with_element(
        self,
        tag: EId,
        attrs: Seq<AttrView>,
        resolved: ResolvedView,
    ) -> DocView {
        DocView {
            nodes: self.nodes.push(
                NodeView {
                    kind: NodeKind::Element,
                    tag: Some(tag),
                    parent: self.top(),
                    end: 0,
                    attrs,
                    text: Seq::empty(),
                    title: None,
                    resolved,
                },
            ),
            open: self.open.push(self.len()),
        }
    }

    /// The document after a text node is added to the innermost open
    /// element.
    pub open spec fn with_text(self, text: Seq<char>) -> DocView {
        DocView {
            nodes: self.nodes.push(
                NodeView {
                    kind: NodeKind::Text,
                    tag: None,
                    parent: self.top(),
                    end: self.len() + 1,
                    attrs: Seq::empty(),
                    text,
                    title: None,
                    resolved: ResolvedView::plain(Number { bits: 0 }),
                },
            ),
            open: self.open,
        }
    }

    /// The document after the innermost open element is closed.
    pub open spec fn with_top_closed(self) -> DocView {
        DocView {
            nodes: self.nodes.update(
                self.top(),
                NodeView { end: self.len(), ..self.nodes[self.top()] },
            ),
            open: self.open.drop_last(),
        }
    }

    /// The document after node `i` received other resolved values.
    pub open spec fn with_resolved(self, i: int, resolved: ResolvedView) -> DocView {
        DocView { nodes: self.nodes.update(i, NodeView { resolved, ..self.nodes[i] }), open: self.open }
    }

    /// The document after node `i` received a title.
    pub open spec fn with_title(self, i: int, title: Seq<char>) -> DocView {
        DocView {
            nodes: self.nodes.update(i, NodeView { title: Some(title), ..self.nodes[i] }),
            open: self.open,
        }
    }

    /// Two documents hold the same text in every node of `[a, b)`.
    pub open spec fn same_text(self, other: DocView, a: int, b: int) -> bool {
        forall|j: int| a <= j < b ==> (#[trigger] self.nodes[j]).text == other.nodes[j].text
    }
}

/// Character counts depend only on the text of the nodes counted.
pub proof fn lemma_chars_in_frame(d1: DocView, d2: DocView, a: int, b: int)
    requires
        d1.same_text(d2, a, b),
    ensures
        d1.chars_in(a, b) == d2.chars_in(a, b),
    decreases b - a,
{
    if a < b {
        lemma_chars_in_frame(d1, d2, a, b - 1);
        assert(d1.nodes[b - 1].text == d2.nodes[b - 1].text);
    }
}

/// Character counts of adjacent ranges add up.
pub proof fn lemma_chars_in_split(d: DocView, a: int, b: int, c: int)
    requires
        a <= b <= c,
    ensures
        d.chars_in(a, c) == d.chars_in(a, b) + d.chars_in(b, c),
    decreases c - b,
{
    if b < c {
        lemma_chars_in_split(d, a, b, c - 1);
    }
}


/// The `id` that a reference of the form `#id` names.
pub open spec fn link_id(value: Seq<char>) -> Option<Seq<char>> {
    if value.len() > 0 && value[0] == '#' {
        Some(value.drop_first())
    } else {
        None
    }
}

/// An optional string slice is present and spells `token`.
pub fn is_token(value: Option<&str>, token: &str) -> (b: bool)
    ensures
        b == (str_view(value) == Some(token@)),
{
    match value {
        Some(v) => crate::names::same_text(v, token),
        None => false,
    }
}

/// The characters of a string slice, one element each.
pub fn chars_of(text: &str) -> (v: Vec<char>)
    ensures
        v@ == text@,
{
    let mut v: Vec<char> = Vec::new();
    for c in it: text.chars()
        invariant
            it.seq() == text@,
            v@ == text@.take(it.index()),
    {
        v.push(c);
    }
    v
}


#[derive(Debug)]
struct NodeData {
    kind: NodeKind,
    tag: Option<EId>,
    parent: usize,
    end: usize,
    attrs: Vec<Attribute>,
    text: Vec<char>,
    title: Option<String>,
    resolved: Resolved,
}

impl NodeData {
    spec fn model(&self) -> NodeView {
        NodeView {
            kind: self.kind,
            tag: self.tag,
            parent: self.parent as int,
            end: self.end as int,
            attrs: attrs_view(self.attrs@),
            text: self.text@,
            title: string_view(self.title),
            resolved: self.resolved@,
        }
    }
}

/// A parsed document: an arena of nodes in document order, built front to
/// back by opening elements, adding text and closing elements.
#[derive(Debug)]
pub struct Document {
    nodes: Vec<NodeData>,
    open: Vec<usize>,
    total_chars: usize,
}

impl View for Document {
    type V = DocView;

    closed spec fn view(&self) -> DocView {
        DocView {
            nodes: Seq::new(self.nodes@.len(), |i: int| self.nodes@[i].model()),
            open: Seq::new(self.open@.len(), |k: int| self.open@[k] as int),
        }
    }
}

impl Document {
    /// The cached character total agrees with the nodes.
    pub closed spec fn counted(&self) -> bool {
        self.total_chars == self@.chars_in(0, self@.len())
    }

    /// The document is well formed.
    pub open spec fn wf(&self) -> bool {
        self.counted() && self@.wf()
    }

    /// A document that holds only its root, which is open.
    pub fn new() -> (doc: Document)
        ensures
            doc.wf(),
            doc@ == DocView::empty(),
    {
        let root = NodeData {
            kind: NodeKind::Root,
            tag: None,
            parent: 0,
            end: 0,
            attrs: Vec::new(),
            text: Vec::new(),
            title: None,
            resolved: Resolved::plain(Number { bits: 0 }),
        };
        let mut nodes: Vec<NodeData> = Vec::new();
        nodes.push(root);
        let mut open: Vec<usize> = Vec::new();
        open.push(0);
        let doc = Document { nodes, open, total_chars: 0 };
        proof {
            assert(attrs_view(Seq::<Attribute>::empty()) =~= Seq::<AttrView>::empty());
            assert(doc.nodes@[0].model() == DocView::empty().nodes[0]);
            assert(doc@.nodes =~= DocView::empty().nodes);
            assert(doc@.open =~= DocView::empty().open);
            lemma_empty_wf();
        }
        doc
    }

    /// Number of nodes, the root included.
    pub fn len(&self) -> (n: usize)
        ensures
            n == self@.len(),
    {
        self.nodes.len()
    }

    /// Opens a new element inside the innermost open one and returns its
    /// index.
    pub fn open_element(&mut self, tag: EId, attrs: Vec<Attribute>, resolved: Resolved) -> (id:
        NodeId)
        requires
            old(self).wf(),
        ensures
            final(self).wf(),
            final(self)@ == old(self)@.with_element(tag, attrs_view(attrs@), resolved@),
            id == old(self)@.len(),
    {
        let id = self.nodes.len();
        let top = self.open[self.open.len() - 1];
        proof {
            assert(self@.open[self.open@.len() - 1] == top);
        }
        let node = NodeData {
            kind: NodeKind::Element,
            tag: Some(tag),
            parent: top,
            end: 0,
            attrs,
            text: Vec::new(),
            title: None,
            resolved,
        };
        self.nodes.push(node);
        self.open.push(id);
        proof {
            let before = old(self)@;
            let after = before.with_element(tag, attrs_view(attrs@), resolved@);
            assert(self@.nodes =~= after.nodes);
            assert(self@.open =~= after.open);
            lemma_with_element_wf(before, tag, attrs_view(attrs@), resolved@);
        }
        id
    }

    /// Closes the innermost open element. The root stays open: with only the
    /// root open nothing changes and the answer is `false`.
    pub fn close_element(&mut self) -> (done: bool)
        requires
            old(self).wf(),
        ensures
            final(self).wf(),
            done == (old(self)@.open.len() > 1),
            done ==> final(self)@ == old(self)@.with_top_closed(),
            !done ==> final(self)@ == old(self)@,
    {
        if self.open.len() <= 1 {
            return false;
        }
        let top = self.open[self.open.len() - 1];
        let end = self.nodes.len();
        proof {
            assert(self@.open[self.open@.len() - 1] == top);
        }
        self.open.pop();
        self.nodes[top].end = end;
        proof {
            let before = old(self)@;
            let after = before.with_top_closed();
            assert(self@.nodes =~= after.nodes);
            assert(self@.open =~= after.open);
            lemma_with_top_closed_wf(before);
        }
        true
    }

    /// Adds a text node to the innermost open element and returns its index,
    /// or `None`, with the document unchanged, when the bytes of the
    /// document's text could then no longer be counted in a `usize`.
    pub fn append_text(&mut self, text: &str) -> (id: Option<NodeId>)
        requires
            old(self).wf(),
        ensures
            final(self).wf(),
            id is Some <==> old(self)@.len() < usize::MAX && 4 * (old(self)@.chars_in(
                0,
                old(self)@.len(),
            ) + text@.len()) <= usize::MAX,
            id matches Some(n) ==> n == old(self)@.len() && final(self)@ == old(self)@.with_text(
                text@,
            ),
            id is None ==> final(self)@ == old(self)@,
    {
        let chars = chars_of(text);
        let id = self.nodes.len();
        if id == usize::MAX || chars.len() > usize::MAX / 4 - self.total_chars {
            return None;
        }
        let top = self.open[self.open.len() - 1];
        proof {
            assert(self@.open[self.open@.len() - 1] == top);
        }
        let node = NodeData {
            kind: NodeKind::Text,
            tag: None,
            parent: top,
            end: id + 1,
            attrs: Vec::new(),
            text: chars,
            title: None,
            resolved: Resolved::plain(Number { bits: 0 }),
        };
        self.total_chars = self.total_chars + node.text.len();
        self.nodes.push(node);
        proof {
            let before = old(self)@;
            let after = before.with_text(text@);
            assert(attrs_view(Seq::<Attribute>::empty()) =~= Seq::<AttrView>::empty());
            assert(self@.nodes =~= after.nodes);
            assert(self@.open =~= after.open);
            lemma_with_text_wf(before, text@);
        }
        Some(id)
    }

    /// Replaces what was resolved for node `node`.
    pub fn set_resolved(&mut self, node: NodeId, resolved: Resolved)
        requires
            old(self).wf(),
            old(self)@.valid(node as int),
        ensures
            final(self).wf(),
            final(self)@ == old(self)@.with_resolved(node as int, resolved@),
    {
        self.nodes[node].resolved = resolved;
        proof {
            let before = old(self)@;
            let after = before.with_resolved(node as int, resolved@);
            assert(self@.nodes =~= after.nodes);
            assert(self@.open =~= after.open);
            lemma_structure_kept(before, after);
        }
    }

    /// Gives node `node` a title.
    pub fn set_title(&mut self, node: NodeId, title: String)
        requires
            old(self).wf(),
            old(self)@.valid(node as int),
        ensures
            final(self).wf(),
            final(self)@ == old(self)@.with_title(node as int, title@),
    {
        self.nodes[node].title = Some(title);
        proof {
            let before = old(self)@;
            let after = before.with_title(node as int, title@);
            assert(self@.nodes =~= after.nodes);
            assert(self@.open =~= after.open);
            lemma_structure_kept(before, after);
        }
    }

    /// What node `node` is.
    pub fn kind(&self, node: NodeId) -> (k: NodeKind)
        requires
            self@.valid(node as int),
        ensures
            k == self@.nodes[node as int].kind,
    {
        self.nodes[node].kind
    }

    /// The element name of node `node`; `None` for the root and for text.
    pub fn tag_name(&self, node: NodeId) -> (tag: Option<EId>)
        requires
            self@.valid(node as int),
        ensures
            tag == self@.nodes[node as int].tag,
    {
        self.nodes[node].tag
    }

    /// Index of the parent of node `node`; the root is its own parent.
    pub fn parent(&self, node: NodeId) -> (p: NodeId)
        requires
            self@.valid(node as int),
        ensures
            p == self@.nodes[node as int].parent,
    {
        self.nodes[node].parent
    }

    /// Index just past the last descendant of node `node`, or 0 while the
    /// node is open.
    pub fn subtree_end(&self, node: NodeId) -> (end: usize)
        requires
            self@.valid(node as int),
        ensures
            end == self@.nodes[node as int].end,
    {
        self.nodes[node].end
    }

    /// The node exists and is closed.
    pub fn is_closed(&self, node: NodeId) -> (b: bool)
        ensures
            b == self@.closed(node as int),
    {
        node < self.nodes.len() && self.nodes[node].end != 0
    }

    /// Number of characters of text node `node`; 0 for other nodes of a well
    /// formed document.
    pub fn text_len(&self, node: NodeId) -> (n: usize)
        requires
            self@.valid(node as int),
        ensures
            n == self@.nodes[node as int].text.len(),
    {
        self.nodes[node].text.len()
    }

    /// Character `i` of text node `node`.
    pub fn text_char(&self, node: NodeId, i: usize) -> (c: char)
        requires
            self@.valid(node as int),
            i < self@.nodes[node as int].text.len(),
        ensures
            c == self@.nodes[node as int].text[i as int],
    {
        self.nodes[node].text[i]
    }

    /// The title of node `node`.
    pub fn title(&self, node: NodeId) -> (t: Option<&str>)
        requires
            self@.valid(node as int),
        ensures
            str_view(t) == self@.nodes[node as int].title,
    {
        match &self.nodes[node].title {
            Some(s) => Some(s.as_str()),
            None => None,
        }
    }

    /// What was resolved for node `node`.
    pub fn resolved(&self, node: NodeId) -> (r: &Resolved)
        requires
            self@.valid(node as int),
        ensures
            r@ == self@.nodes[node as int].resolved,
    {
        &self.nodes[node].resolved
    }

    /// Value of attribute `aid` on node `node` itself.
    pub fn attribute(&self, node: NodeId, aid: AId) -> (v: Option<&str>)
        requires
            self@.valid(node as int),
        ensures
            str_view(v) == self@.attribute(node as int, aid),
    {
        let attrs = &self.nodes[node].attrs;
        let ghost all = attrs_view(attrs@);
        let mut k: usize = 0;
        assert(all.skip(0) =~= all);
        while k < attrs.len()
            invariant
                k <= attrs.len(),
                all == attrs_view(attrs@),
                all == self@.nodes[node as int].attrs,
                lookup(all, aid) == lookup(all.skip(k as int), aid),
            decreases attrs.len() - k,
        {
            proof {
                assert(all.skip(k as int).drop_first() =~= all.skip(k as int + 1));
                assert(all.skip(k as int)[0] == all[k as int]);
                assert(all[k as int] == attrs@[k as int]@);
            }
            if attrs[k].id == aid {
                return Some(attrs[k].value.as_str());
            }
            k = k + 1;
        }
        assert(all.skip(k as int).len() == 0);
        None
    }

    /// Node `node` itself carries attribute `aid`.
    pub fn has_attribute(&self, node: NodeId, aid: AId) -> (b: bool)
        requires
            self@.valid(node as int),
        ensures
            b == (self@.attribute(node as int, aid) is Some),
    {
        self.attribute(node, aid).is_some()
    }

    /// The nearest of node `node` and its ancestors that carries attribute
    /// `aid`.
    pub fn find_attribute_node(&self, node: NodeId, aid: AId) -> (found: Option<NodeId>)
        requires
            self@.valid(node as int),
        ensures
            found matches Some(n) ==> self@.find_attribute_node(node as int, aid) == Some(
                n as int,
            ) && self@.valid(n as int),
            found is None ==> self@.find_attribute_node(node as int, aid) is None,
    {
        let mut cur = node;
        loop
            invariant
                self@.valid(cur as int),
                self@.find_attribute_node(node as int, aid) == self@.find_attribute_node(
                    cur as int,
                    aid,
                ),
            decreases cur,
        {
            if self.has_attribute(cur, aid) {
                return Some(cur);
            }
            let p = self.nodes[cur].parent;
            if p < cur {
                cur = p;
            } else {
                return None;
            }
        }
    }

    /// Value of attribute `aid` as node `node` inherits it.
    pub fn find_attribute(&self, node: NodeId, aid: AId) -> (v: Option<&str>)
        requires
            self@.valid(node as int),
        ensures
            str_view(v) == self@.find_attribute(node as int, aid),
    {
        match self.find_attribute_node(node, aid) {
            Some(n) => self.attribute(n, aid),
            None => None,
        }
    }

    /// The first node with tag `tag`.
    pub fn first_element(&self, tag: EId) -> (found: Option<NodeId>)
        ensures
            found matches Some(n) ==> self@.first_with_tag(n as int, tag),
            found is None ==> forall|j: int|
                0 <= j < self@.len() ==> (#[trigger] self@.nodes[j]).tag != Some(tag),
    {
        let mut j: usize = 0;
        while j < self.nodes.len()
            invariant
                j <= self@.len(),
                forall|k: int| 0 <= k < j ==> (#[trigger] self@.nodes[k]).tag != Some(tag),
            decreases self.nodes.len() - j,
        {
            match self.nodes[j].tag {
                Some(t) => {
                    if t == tag {
                        return Some(j);
                    }
                },
                None => {},
            }
            j = j + 1;
        }
        None
    }

    /// The first node whose `id` is `id`.
    pub fn element_by_id(&self, id: &str) -> (found: Option<NodeId>)
        ensures
            found matches Some(n) ==> self@.first_with_id(n as int, id@),
            found is None ==> self@.no_such_id(id@),
    {
        let mut j: usize = 0;
        while j < self.nodes.len()
            invariant
                j <= self@.len(),
                forall|k: int| 0 <= k < j ==> #[trigger] self@.attribute(k, AId::Id) != Some(id@),
            decreases self.nodes.len() - j,
        {
            if is_token(self.attribute(j, AId::Id), id) {
                return Some(j);
            }
            j = j + 1;
        }
        None
    }

    /// The node that attribute `aid` of node `node` refers to: the first
    /// node with the `id` that a value of the form `#id` names.
    pub fn link_target(&self, node: NodeId, aid: AId) -> (found: Option<NodeId>)
        requires
            self@.valid(node as int),
        ensures
            match self@.attribute(node as int, aid) {
                Some(v) => match link_id(v) {
                    Some(id) => {
                        &&& found matches Some(n) ==> self@.first_with_id(n as int, id)
                        &&& found is None ==> self@.no_such_id(id)
                    },
                    None => found is None,
                },
                None => found is None,
            },
    {
        match self.attribute(node, aid) {
            Some(v) => {
                let chars = chars_of(v);
                if chars.len() > 0 && chars[0] == '#' {
                    let id = crate::chars::string_from(&chars, 1, chars.len());
                    proof {
                        assert(chars@.subrange(1, chars@.len() as int) =~= chars@.drop_first());
                    }
                    self.element_by_id(id.as_str())
                } else {
                    None
                }
            },
            None => None,
        }
    }

    /// The text of text node `node`; empty for other nodes of a well formed
    /// document.
    pub fn text(&self, node: NodeId) -> (text: String)
        requires
            self@.valid(node as int),
        ensures
            text@ == self@.nodes[node as int].text,
    {
        let chars = &self.nodes[node].text;
        let text = crate::chars::string_from(chars, 0, chars.len());
        proof {
            assert(chars@.subrange(0, chars@.len() as int) =~= chars@);
        }
        text
    }

    /// The children of closed node `node`, in document order.
    #[verifier::rlimit(40)]
    pub fn children(&self, node: NodeId) -> (list: Vec<NodeId>)
        requires
            self.wf(),
            self@.closed(node as int),
        ensures
            forall|k: int| 0 <= k < list@.len() ==> self@.is_child(node as int, #[trigger] list@[k] as int),
            forall|j: int, k: int| 0 <= j < k < list@.len() ==> list@[j] < list@[k],
            forall|c: usize| self@.is_child(node as int, c as int) ==> list@.contains(c),
    {
        let end = self.nodes[node].end;
        proof {
            assert(self@.node_wf(node as int));
        }
        let mut list: Vec<NodeId> = Vec::new();
        let mut c = node + 1;
        while c < end
            invariant
                self.wf(),
                self@.closed(node as int),
                end == self@.nodes[node as int].end,
                node < c <= end <= self@.len(),
                forall|k: int|
                    0 <= k < list@.len() ==> self@.is_child(node as int, #[trigger] list@[k] as int)
                        && list@[k] < c,
                forall|j: int, k: int| 0 <= j < k < list@.len() ==> list@[j] < list@[k],
                forall|j: usize| j < c && self@.is_child(node as int, j as int) ==> list@.contains(j),
                forall|k: int| node < k < c ==> 0 < (#[trigger] self@.nodes[k]).end <= c,
            decreases end - c,
        {
            let ghost d = self@;
            let ghost before = list@;
            proof {
                assert(d.node_wf(node as int));
                assert(d.node_wf(c as int));
                assert(0 < d.nodes[c as int].end <= end);
                let p = d.nodes[c as int].parent;
                if p > node {
                    assert(0 < d.nodes[p].end <= c);
                } else if p < node {
                    assert(0 < d.nodes[node as int].end <= c);
                }
                assert(d.is_child(node as int, c as int));
            }
            list.push(c);
            let next = self.nodes[c].end;
            proof {
                assert forall|j: usize| j < next && d.is_child(node as int, j as int) implies list@.contains(
                    j,
                ) by {
                    if j < c {
                        assert(before.contains(j));
                        let k = choose|k: int| 0 <= k < before.len() && before[k] == j;
                        assert(list@[k] == j);
                    } else if j == c {
                        assert(list@[list@.len() - 1] == c);
                    } else {
                        // A node below `c` is no child of `node`.
                        assert(d.node_wf(j as int));
                        assert(0 < d.nodes[c as int].end <= j);
                    }
                }
                assert forall|k: int| node < k < next implies 0 < (#[trigger] d.nodes[k]).end
                    <= next by {
                    if k > c {
                        assert(0 < d.nodes[k].end <= d.nodes[c as int].end);
                    }
                }
            }
            c = next;
        }
        proof {
            assert forall|j: usize| self@.is_child(node as int, j as int) implies list@.contains(
                j,
            ) by {}
        }
        list
    }

    /// Node `node` and its ancestors, innermost first and the root last.
    pub fn ancestors(&self, node: NodeId) -> (chain: Vec<NodeId>)
        requires
            self@.valid(node as int),
        ensures
            chain@.len() >= 1,
            chain@[0] == node,
            forall|k: int| 0 <= k < chain@.len() ==> self@.valid(#[trigger] chain@[k] as int),
            forall|k: int|
                0 <= k < chain@.len() - 1 ==> (#[trigger] chain@[k + 1]) == self@.nodes[chain@[k] as int].parent
                    && chain@[k + 1] < chain@[k],
            !(self@.nodes[chain@.last() as int].parent < chain@.last()),
    {
        let mut chain: Vec<NodeId> = Vec::new();
        let mut cur = node;
        chain.push(cur);
        loop
            invariant
                self@.valid(cur as int),
                chain@.len() >= 1,
                chain@[0] == node,
                chain@.last() == cur,
                forall|k: int| 0 <= k < chain@.len() ==> self@.valid(#[trigger] chain@[k] as int),
                forall|k: int|
                    0 <= k < chain@.len() - 1 ==> (#[trigger] chain@[k + 1])
                        == self@.nodes[chain@[k] as int].parent && chain@[k + 1] < chain@[k],
            decreases cur,
        {
            let p = self.nodes[cur].parent;
            if p < cur {
                cur = p;
                chain.push(cur);
            } else {
                return chain;
            }
        }
    }

    /// Number of characters in the text nodes at or below closed node
    /// `node`.
    pub fn count_chars(&self, node: NodeId) -> (n: usize)
        requires
            self.wf(),
            self@.closed(node as int),
        ensures
            n == self@.count_chars(node as int),
    {
        let end = self.nodes[node].end;
        proof {
            assert(self@.node_wf(node as int));
        }
        let mut n: usize = 0;
        let mut j = node;
        while j < end
            invariant
                self.wf(),
                node <= j <= end <= self@.len(),
                n == self@.chars_in(node as int, j as int),
            decreases end - j,
        {
            proof {
                lemma_chars_in_split(self@, 0, node as int, j as int + 1);
                lemma_chars_in_split(self@, 0, j as int + 1, self@.len());
            }
            n = n + self.nodes[j].text.len();
            j = j + 1;
        }
        n
    }
}

/// A document that holds only its root is well formed and has no characters.
pub proof fn lemma_empty_wf()
    ensures
        DocView::empty().wf(),
        DocView::empty().chars_in(0, 1) == 0,
{
    let d = DocView::empty();
    assert(d.chars_in(0, 0) == 0);
    assert(d.chars_in(0, 1) == 0);
    assert(d.node_wf(0));
}

/// Opening an element keeps a document well formed and its characters as
/// they were.
#[verifier::rlimit(40)]
pub proof fn lemma_with_element_wf(
    before: DocView,
    tag: EId,
    attrs: Seq<AttrView>,
    resolved: ResolvedView,
)
    requires
        before.wf(),
    ensures
        before.with_element(tag, attrs, resolved).wf(),
        before.with_element(tag, attrs, resolved).chars_in(0, before.len() + 1)
            == before.chars_in(0, before.len()),
{
    let after = before.with_element(tag, attrs, resolved);
    let last = before.open.len() - 1;
    assert(before.open[last] == before.top());
    lemma_chars_in_frame(before, after, 0, before.len());
    assert(after.chars_in(0, after.len()) == after.chars_in(0, before.len()));
    assert forall|i: int| 0 <= i < after.nodes.len() implies after.node_wf(i) by {
        if i < before.len() {
            assert(before.node_wf(i));
            assert(after.nodes[i] == before.nodes[i]);
            if before.nodes[i].end != 0 {
                assert forall|j: int| i < j < after.nodes[i].end implies 0 < (
                #[trigger] after.nodes[j]).end <= after.nodes[i].end by {
                    assert(0 < before.nodes[j].end <= before.nodes[i].end);
                }
            }
            assert forall|k: int| after.nodes[i].parent < k < i implies 0 < (
            #[trigger] after.nodes[k]).end <= i by {
                assert(0 < before.nodes[k].end <= i);
            }
        } else {
            assert forall|k: int| after.nodes[i].parent < k < i implies 0 < (
            #[trigger] after.nodes[k]).end <= i by {
                assert(before.upper(last) == before.len());
                assert(before.nodes[k].end != 0);
                assert(before.node_wf(k));
            }
        }
    }
    assert(after.open_wf()) by {
        assert forall|k: int|
            0 <= k < after.open.len() implies 0 <= (#[trigger] after.open[k]) < after.nodes.len()
            && after.nodes[after.open[k]].end == 0 && after.nodes[after.open[k]].kind
            != NodeKind::Text by {
            if k < before.open.len() {
                assert(before.open[k] == after.open[k]);
                assert(after.nodes[before.open[k]] == before.nodes[before.open[k]]);
            }
        }
        assert forall|k: int, m: int| 0 <= k < m < after.open.len() implies (
        #[trigger] after.open[k]) < (#[trigger] after.open[m]) by {
            assert(before.open[k] == after.open[k]);
            if m < before.open.len() {
                assert(before.open[m] == after.open[m]);
            }
        }
        assert forall|k: int, j: int|
            #![trigger after.open[k], after.nodes[j]]
            0 <= k < after.open.len() && after.open[k] < j < after.upper(k) implies after.nodes[j].end
            != 0 by {
            if k < before.open.len() {
                assert(before.open[k] == after.open[k]);
                assert(after.upper(k) <= before.upper(k));
                assert(before.nodes[j] == after.nodes[j]);
            }
        }
    }
}

/// Adding a text node keeps a document well formed, provided its characters
/// can still be counted, and adds the node's characters to the count.
#[verifier::rlimit(40)]
pub proof fn lemma_with_text_wf(before: DocView, text: Seq<char>)
    requires
        before.wf(),
        4 * (before.chars_in(0, before.len()) + text.len()) <= usize::MAX,
    ensures
        before.with_text(text).wf(),
        before.with_text(text).chars_in(0, before.len() + 1) == before.chars_in(0, before.len())
            + text.len(),
{
    let after = before.with_text(text);
    let last = before.open.len() - 1;
    assert(before.open[last] == before.top());
    lemma_chars_in_frame(before, after, 0, before.len());
    assert(after.chars_in(0, after.len()) == after.chars_in(0, before.len()) + text.len());
    assert forall|i: int| 0 <= i < after.nodes.len() implies after.node_wf(i) by {
        if i < before.len() {
            assert(before.node_wf(i));
            assert(after.nodes[i] == before.nodes[i]);
            if before.nodes[i].end != 0 {
                assert forall|j: int| i < j < after.nodes[i].end implies 0 < (
                #[trigger] after.nodes[j]).end <= after.nodes[i].end by {
                    assert(0 < before.nodes[j].end <= before.nodes[i].end);
                }
            }
            assert forall|k: int| after.nodes[i].parent < k < i implies 0 < (
            #[trigger] after.nodes[k]).end <= i by {
                assert(0 < before.nodes[k].end <= i);
            }
        } else {
            assert forall|k: int| after.nodes[i].parent < k < i implies 0 < (
            #[trigger] after.nodes[k]).end <= i by {
                assert(before.upper(last) == before.len());
                assert(before.nodes[k].end != 0);
                assert(before.node_wf(k));
            }
        }
    }
    assert(after.open_wf()) by {
        assert forall|k: int|
            0 <= k < after.open.len() implies 0 <= (#[trigger] after.open[k]) < after.nodes.len()
            && after.nodes[after.open[k]].end == 0 && after.nodes[after.open[k]].kind
            != NodeKind::Text by {
            assert(after.nodes[before.open[k]] == before.nodes[before.open[k]]);
        }
        assert forall|k: int, j: int|
            #![trigger after.open[k], after.nodes[j]]
            0 <= k < after.open.len() && after.open[k] < j < after.upper(k) implies after.nodes[j].end
            != 0 by {
            if j < before.len() {
                assert(before.nodes[j] == after.nodes[j]);
                assert(j < before.upper(k));
            }
        }
    }
}

/// Closing the innermost open element, when it is not the root, keeps a
/// document well formed and its characters as they were.
#[verifier::rlimit(40)]
pub proof fn lemma_with_top_closed_wf(before: DocView)
    requires
        before.wf(),
        before.open.len() > 1,
    ensures
        before.with_top_closed().wf(),
        before.with_top_closed().chars_in(0, before.len()) == before.chars_in(0, before.len()),
{
    let after = before.with_top_closed();
    lemma_chars_in_frame(before, after, 0, before.len());
    let t = before.top();
    let last = before.open.len() - 1;
    assert(before.open[last] == t);
    assert(before.open[0] < before.open[last]);
    assert forall|j: int| t < j < after.len() implies 0 < (#[trigger] after.nodes[j]).end
        <= after.len() by {
        assert(before.upper(last) == before.len());
        assert(before.nodes[j].end != 0);
        assert(before.node_wf(j));
    }
    assert forall|i: int| 0 <= i < after.nodes.len() implies after.node_wf(i) by {
        assert(before.node_wf(i));
        if i != t {
            assert(after.nodes[i] == before.nodes[i]);
            if before.nodes[i].end != 0 {
                assert forall|j: int| i < j < after.nodes[i].end implies 0 < (
                #[trigger] after.nodes[j]).end <= after.nodes[i].end by {
                    assert(0 < before.nodes[j].end <= before.nodes[i].end);
                }
            }
        }
        assert forall|k: int| after.nodes[i].parent < k < i implies 0 < (
        #[trigger] after.nodes[k]).end <= i by {
            assert(0 < before.nodes[k].end <= i);
        }
    }
    assert(after.open_wf()) by {
        assert forall|k: int|
            0 <= k < after.open.len() implies 0 <= (#[trigger] after.open[k]) < after.nodes.len()
            && after.nodes[after.open[k]].end == 0 && after.nodes[after.open[k]].kind
            != NodeKind::Text by {
            assert(before.open[k] == after.open[k]);
            assert(before.open[k] < before.open[last]);
        }
        assert forall|k: int, m: int| 0 <= k < m < after.open.len() implies (
        #[trigger] after.open[k]) < (#[trigger] after.open[m]) by {
            assert(before.open[k] == after.open[k]);
            assert(before.open[m] == after.open[m]);
        }
        assert forall|k: int, j: int|
            #![trigger after.open[k], after.nodes[j]]
            0 <= k < after.open.len() && after.open[k] < j < after.upper(k) implies after.nodes[j].end
            != 0 by {
            assert(before.open[k] == after.open[k]);
            if k + 1 < after.open.len() {
                assert(before.upper(k) == after.upper(k));
                assert(before.open[k + 1] < before.open[last]);
                assert(before.nodes[j].end != 0);
            } else {
                assert(before.upper(k) == t);
                if j > t {
                } else if j == t {
                } else {
                    assert(before.nodes[j].end != 0);
                }
            }
        }
    }
}

/// A change that touches neither structure nor text keeps a document well
/// formed and its characters counted as before.
#[verifier::rlimit(40)]
proof fn lemma_structure_kept(before: DocView, after: DocView)
    requires
        before.wf(),
        before.open == after.open,
        before.nodes.len() == after.nodes.len(),
        forall|i: int|
            0 <= i < before.nodes.len() ==> {
                let a = #[trigger] after.nodes[i];
                let b = before.nodes[i];
                a.kind == b.kind && a.tag == b.tag && a.parent == b.parent && a.end == b.end
                    && a.text == b.text
            },
    ensures
        after.wf(),
        after.chars_in(0, after.len()) == before.chars_in(0, before.len()),
{
    lemma_chars_in_frame(before, after, 0, before.len());
    assert forall|i: int| 0 <= i < after.nodes.len() implies after.node_wf(i) by {
        assert(before.node_wf(i));
        let a = after.nodes[i];
        if i > 0 {
            let p = after.nodes[a.parent];
        }
        if a.end != 0 {
            assert forall|j: int| i < j < a.end implies 0 < (#[trigger] after.nodes[j]).end
                <= a.end by {
                assert(0 < before.nodes[j].end <= before.nodes[i].end);
            }
        }
        assert forall|k: int| a.parent < k < i implies 0 < (#[trigger] after.nodes[k]).end
            <= i by {
            assert(0 < before.nodes[k].end <= i);
        }
    }
    assert(after.open_wf()) by {
        assert forall|k: int|
            0 <= k < after.open.len() implies 0 <= (#[trigger] after.open[k]) < after.nodes.len()
            && after.nodes[after.open[k]].end == 0 && after.nodes[after.open[k]].kind
            != NodeKind::Text by {
            assert(before.open[k] == after.open[k]);
            let a = after.nodes[after.open[k]];
        }
        assert forall|k: int, j: int|
            #![trigger after.open[k], after.nodes[j]]
            0 <= k < after.open.len() && after.open[k] < j < after.upper(k) implies after.nodes[j].end
            != 0 by {
            assert(before.upper(k) == after.upper(k));
            assert(before.open[k] == after.open[k]);
            assert(before.nodes[j].end != 0);
        }
    }
}

} // verus!
