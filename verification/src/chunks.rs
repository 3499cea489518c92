use vstd::prelude::*;
use crate::chars::{
    char_len_utf8, lemma_utf8_len_bounds, lemma_utf8_len_push, push_char, utf8_len, utf8_width,
};
use crate::converter::State;
use crate::names::{AId, EId};
use crate::positions::lemma_inner_chars;
use crate::span::{anchor_of, flow_of, resolve_span, resolve_text_flow, span_style};
use crate::svgtree::{is_token, lemma_chars_in_split, DocView, Document, NodeId, NodeKind};
use crate::text::{
    chunks_view, spans_view, CharacterPosition, ChunkView, SpanView, TextAnchor, TextChunk,
    TextFlow, TextSpan,
};

verus! {

/// What the collection of chunks reads and never changes: the document, the
/// position of every character of the text element, the text element, and
/// the font family of text that names none.
pub struct Env {
    pub d: DocView,
    pub pos: Seq<CharacterPosition>,
    pub text_node: int,
    pub family: Seq<char>,
}

/// Where the collection of chunks stands.
pub struct Walk {
    /// Characters of the text element passed so far, emitted or not.
    pub chars_count: int,
    /// Bytes in the text of the chunk that is being filled.
    pub chunk_bytes_count: int,
    /// The next character emitted starts a chunk, whatever its position
    /// says.
    pub split_chunk: bool,
    /// The flow of the chunks that start now.
    pub text_flow: TextFlow,
    /// The chunks so far.
    pub chunks: Seq<ChunkView>,
    /// Characters passed without being emitted.
    pub dropped: int,
}

/// Number of characters in the texts of `chunks`.
pub open spec fn emitted(chunks: Seq<ChunkView>) -> nat
    decreases chunks.len(),
{
    if chunks.len() == 0 {
        0
    } else {
        emitted(chunks.drop_last()) + chunks.last().text.len()
    }
}

/// Number of bytes that `spans` cover, each counted by its own bounds.
pub open spec fn span_bytes(spans: Seq<SpanView>) -> int
    decreases spans.len(),
{
    if spans.len() == 0 {
        0
    } else {
        span_bytes(spans.drop_last()) + (spans.last().end - spans.last().start)
    }
}

/// The spans of a chunk tile the bytes of its text: there is a first span,
/// it starts at 0, no span is empty, each starts where the one before it
/// ends, and the last ends where the text ends.
pub open spec fn tiled(c: ChunkView) -> bool {
    &&& c.spans.len() >= 1
    &&& c.text.len() >= 1
    &&& c.spans[0].start == 0
    &&& forall|k: int| 0 <= k < c.spans.len() ==> (#[trigger] c.spans[k]).start < c.spans[k].end
    &&& forall|j: int, k: int|
        0 <= j && k == j + 1 && k < c.spans.len() ==> (#[trigger] c.spans[j]).end == (
        #[trigger] c.spans[k]).start
    &&& c.spans.last().end == utf8_len(c.text)
}

/// Every span of the chunk has a font size that is finite and above zero.
pub open spec fn sized(c: ChunkView) -> bool {
    forall|k: int| 0 <= k < c.spans.len() ==> (#[trigger] c.spans[k]).font_size.positive()
}

/// A chunk that starts with character `c`.
pub open spec fn fresh_chunk(
    pos: CharacterPosition,
    c: char,
    span: SpanView,
    anchor: TextAnchor,
    flow: TextFlow,
) -> ChunkView {
    ChunkView {
        x: pos.x,
        y: pos.y,
        anchor,
        spans: seq![span.at(0, utf8_width(c) as int)],
        text_flow: flow,
        text: seq![c],
    }
}

/// Chunk `last`, which holds `bytes` bytes, after character `c` was added to
/// it: as the start of a new span in style `span` where `first` holds, else
/// as one more character of its last span.
pub open spec fn grown_chunk(
    last: ChunkView,
    c: char,
    first: bool,
    span: SpanView,
    bytes: int,
) -> ChunkView {
    let k = utf8_width(c) as int;
    let spans = if first {
        last.spans.push(span.at(bytes, bytes + k))
    } else {
        last.spans.update(
            last.spans.len() - 1,
            SpanView { end: last.spans.last().end + k, ..last.spans.last() },
        )
    };
    ChunkView { spans, text: last.text.push(c), ..last }
}

impl Walk {
    /// Nothing passed, nothing emitted, linear flow.
    pub open spec fn start() -> Walk {
        Walk {
            chars_count: 0,
            chunk_bytes_count: 0,
            split_chunk: false,
            text_flow: TextFlow::Linear,
            chunks: Seq::empty(),
            dropped: 0,
        }
    }

    /// The walk after `n` characters were passed without being emitted.
    pub open spec fn skip(self, n: int) -> Walk {
        Walk { chars_count: self.chars_count + n, dropped: self.dropped + n, ..self }
    }

    /// A character with position `pos` that is emitted now starts a chunk.
    pub open spec fn starts_chunk(self, pos: CharacterPosition) -> bool {
        pos.x is Some || pos.y is Some || self.split_chunk || self.chunks.len() == 0
    }

    /// The walk after character `c` with position `pos` was emitted in style
    /// `span`; `first` says that it is the first character of its text node.
    /// It starts a chunk, or starts a span in the last chunk, or lengthens the
    /// last span of the last chunk.
    pub open spec fn step(
        self,
        pos: CharacterPosition,
        c: char,
        first: bool,
        span: SpanView,
        anchor: TextAnchor,
    ) -> Walk {
        let k = utf8_width(c) as int;
        if self.starts_chunk(pos) {
            Walk {
                chars_count: self.chars_count + 1,
                chunk_bytes_count: k,
                split_chunk: false,
                text_flow: self.text_flow,
                chunks: self.chunks.push(fresh_chunk(pos, c, span, anchor, self.text_flow)),
                dropped: self.dropped,
            }
        } else {
            Walk {
                chars_count: self.chars_count + 1,
                chunk_bytes_count: self.chunk_bytes_count + k,
                split_chunk: false,
                text_flow: self.text_flow,
                chunks: self.chunks.update(
                    self.chunks.len() - 1,
                    grown_chunk(self.chunks.last(), c, first, span, self.chunk_bytes_count),
                ),
                dropped: self.dropped,
            }
        }
    }

    /// What holds of every walk that started at [`Walk::start`]: each
    /// character passed was either emitted or dropped, every chunk is tiled
    /// by its spans, every span has a font size above zero, and the byte
    /// count is that of the last chunk's text.
    pub open spec fn inv(self) -> bool {
        &&& 0 <= self.dropped
        &&& emitted(self.chunks) + self.dropped == self.chars_count
        &&& forall|i: int| 0 <= i < self.chunks.len() ==> tiled(#[trigger] self.chunks[i])
        &&& forall|i: int| 0 <= i < self.chunks.len() ==> sized(#[trigger] self.chunks[i])
        &&& (self.chunks.len() > 0 ==> self.chunk_bytes_count == utf8_len(
            self.chunks.last().text,
        ))
        &&& 0 <= self.chunk_bytes_count <= 4 * self.chars_count
    }
}

/// Element `parent` is rendered: its `display` is not `none`, and nothing
/// that was resolved for it stands against it.
pub open spec fn is_visible_element(d: DocView, parent: int) -> bool {
    d.attribute(parent, AId::Display) != Some("none"@) && d.nodes[parent].resolved.visible
}

/// Element `parent` lets the characters of its text nodes through: it is
/// rendered and its font size is finite and above zero.
pub open spec fn emits(d: DocView, parent: int) -> bool {
    is_visible_element(d, parent) && d.nodes[parent].resolved.font_size.positive()
}

/// The walk after the first `n` characters of text node `child` of element
/// `parent` were emitted.
pub open spec fn walk_text(env: Env, w: Walk, parent: int, child: int, n: int) -> Walk
    decreases n,
{
    if n <= 0 {
        w
    } else {
        let before = walk_text(env, w, parent, child, n - 1);
        before.step(
            env.pos[before.chars_count],
            env.d.nodes[child].text[n - 1],
            n == 1,
            span_style(env.d, env.text_node, parent, child, env.family),
            anchor_of(env.d, parent),
        )
    }
}

/// The walk after child `c` of `parent`.
///
/// A `textPath` that is not the child of a `text`, or whose outline could
/// not be had, is passed over together with all below it. Any other element
/// is walked through; on the way out the flow is linear again, and after a
/// `textPath` the next character starts a chunk. The characters of a text
/// node are emitted if `parent` lets them through, and passed over
/// otherwise.
pub open spec fn walk_child(env: Env, parent: int, c: int, w: Walk) -> Walk
    decreases env.d.len() - parent, env.d.len() - c, 0int,
{
    let d = env.d;
    if !(0 <= parent < c < d.len()) {
        w
    } else {
        match d.nodes[c].kind {
            NodeKind::Element => {
                if d.nodes[c].tag == Some(EId::TextPath) {
                    if d.nodes[parent].tag != Some(EId::Text) {
                        w.skip(d.count_chars(c) as int)
                    } else {
                        match flow_of(d, c) {
                            None => w.skip(d.count_chars(c) as int),
                            Some(v) => {
                                let inner = walk_children(
                                    env,
                                    c,
                                    c + 1,
                                    Walk { text_flow: v, split_chunk: true, ..w },
                                );
                                Walk { text_flow: TextFlow::Linear, split_chunk: true, ..inner }
                            },
                        }
                    }
                } else {
                    let inner = walk_children(env, c, c + 1, w);
                    Walk { text_flow: TextFlow::Linear, ..inner }
                }
            },
            NodeKind::Text => {
                if emits(d, parent) {
                    walk_text(env, w, parent, c, d.nodes[c].text.len() as int)
                } else {
                    w.skip(d.nodes[c].text.len() as int)
                }
            },
            NodeKind::Root => w,
        }
    }
}

/// The walk after the children of `parent` from `c` on, in document order.
pub open spec fn walk_children(env: Env, parent: int, c: int, w: Walk) -> Walk
    decreases env.d.len() - parent, env.d.len() - c, 1int,
{
    let d = env.d;
    if 0 <= parent < c < d.nodes[parent].end && c < d.nodes[c].end <= d.len() {
        walk_children(env, parent, d.nodes[c].end, walk_child(env, parent, c, w))
    } else {
        w
    }
}

/// The whole walk over the text element of `env`.
pub open spec fn walk_of(env: Env) -> Walk {
    walk_children(env, env.text_node, env.text_node + 1, Walk::start())
}

/// One more chunk adds the characters of its text.
pub proof fn lemma_emitted_push(chunks: Seq<ChunkView>, c: ChunkView)
    ensures
        emitted(chunks.push(c)) == emitted(chunks) + c.text.len(),
{
    assert(chunks.push(c).drop_last() =~= chunks);
}

/// Another last chunk changes the count by the difference of the texts.
pub proof fn lemma_emitted_update_last(chunks: Seq<ChunkView>, c: ChunkView)
    requires
        chunks.len() > 0,
    ensures
        emitted(chunks.update(chunks.len() - 1, c)) == emitted(chunks) - chunks.last().text.len()
            + c.text.len(),
{
    assert(chunks.update(chunks.len() - 1, c).drop_last() =~= chunks.drop_last());
}

/// Emitting a character keeps the invariant.
#[verifier::rlimit(40)]
pub proof fn lemma_step_inv(
    w: Walk,
    pos: CharacterPosition,
    c: char,
    first: bool,
    span: SpanView,
    anchor: TextAnchor,
)
    requires
        w.inv(),
        span.font_size.positive(),
    ensures
        w.step(pos, c, first, span, anchor).inv(),
{
    let k = utf8_width(c) as int;
    let after = w.step(pos, c, first, span, anchor);
    if w.starts_chunk(pos) {
        let chunk = after.chunks.last();
        lemma_emitted_push(w.chunks, chunk);
        lemma_utf8_len_push(Seq::<char>::empty(), c);
        assert(Seq::<char>::empty().push(c) =~= seq![c]);
        assert(utf8_len(Seq::<char>::empty()) == 0);
        assert(tiled(chunk));
        assert(sized(chunk));
        assert forall|i: int| 0 <= i < after.chunks.len() implies tiled(
            #[trigger] after.chunks[i],
        ) && sized(after.chunks[i]) by {
            if i < w.chunks.len() {
                assert(after.chunks[i] == w.chunks[i]);
                assert(sized(w.chunks[i]));
            }
        }
    } else {
        let last = w.chunks.last();
        let chunk = after.chunks.last();
        assert(tiled(last));
        lemma_emitted_update_last(w.chunks, chunk);
        lemma_utf8_len_push(last.text, c);
        lemma_utf8_len_bounds(last.text);
        assert(tiled(chunk)) by {
            if first {
                assert forall|j: int, k: int|
                    0 <= j && k == j + 1 && k < chunk.spans.len() implies (
                #[trigger] chunk.spans[j]).end == (#[trigger] chunk.spans[k]).start by {
                    if k < last.spans.len() {
                        assert(chunk.spans[j] == last.spans[j]);
                        assert(chunk.spans[k] == last.spans[k]);
                    }
                }
                assert forall|j: int| 0 <= j < chunk.spans.len() implies (
                #[trigger] chunk.spans[j]).start < chunk.spans[j].end by {
                    if j < last.spans.len() {
                        assert(chunk.spans[j] == last.spans[j]);
                    }
                }
            } else {
                assert forall|j: int, k: int|
                    0 <= j && k == j + 1 && k < chunk.spans.len() implies (
                #[trigger] chunk.spans[j]).end == (#[trigger] chunk.spans[k]).start by {
                    assert(chunk.spans[j] == last.spans[j]);
                    assert(last.spans[j].end == last.spans[k].start);
                }
                assert forall|j: int| 0 <= j < chunk.spans.len() implies (
                #[trigger] chunk.spans[j]).start < chunk.spans[j].end by {
                    assert(last.spans[j].start < last.spans[j].end);
                }
            }
        }
        assert(sized(chunk)) by {
            assert(sized(w.chunks[w.chunks.len() - 1]));
            assert forall|j: int| 0 <= j < chunk.spans.len() implies (
            #[trigger] chunk.spans[j]).font_size.positive() by {
                if j < last.spans.len() {
                    assert(last.spans[j].font_size.positive());
                }
            }
        }
        assert forall|i: int| 0 <= i < after.chunks.len() implies tiled(
            #[trigger] after.chunks[i],
        ) && sized(after.chunks[i]) by {
            if i < w.chunks.len() - 1 {
                assert(after.chunks[i] == w.chunks[i]);
                assert(sized(w.chunks[i]));
            }
        }
    }
}

/// The spans of a tiled chunk cover, between them, as many bytes as the
/// chunk's text has.
pub proof fn lemma_tiled_bytes(c: ChunkView)
    requires
        tiled(c),
    ensures
        span_bytes(c.spans) == utf8_len(c.text),
{
    lemma_prefix_bytes(c, c.spans.len() as int);
    assert(c.spans.take(c.spans.len() as int) =~= c.spans);
}

#[verifier::rlimit(40)]
proof fn lemma_prefix_bytes(c: ChunkView, n: int)
    requires
        tiled(c),
        1 <= n <= c.spans.len(),
    ensures
        span_bytes(c.spans.take(n)) == c.spans[n - 1].end,
    decreases n,
{
    let head = c.spans.take(n);
    assert(head.last() == c.spans[n - 1]);
    assert(head.drop_last() =~= c.spans.take(n - 1));
    if n == 1 {
        assert(span_bytes(c.spans.take(0)) == 0);
    } else {
        lemma_prefix_bytes(c, n - 1);
        assert(c.spans[n - 2].end == c.spans[n - 1].start);
    }
}

/// A chunk starts at an emitted character exactly when the character has an
/// absolute `x` or `y`, or a chunk break is pending from entering or leaving
/// a `textPath`, or no chunk exists yet. Otherwise the number of chunks
/// stays as it is.
pub proof fn lemma_chunk_boundary(
    w: Walk,
    pos: CharacterPosition,
    c: char,
    first: bool,
    span: SpanView,
    anchor: TextAnchor,
)
    ensures
        w.step(pos, c, first, span, anchor).chunks.len() == w.chunks.len() + 1 <==> pos.x is Some
            || pos.y is Some || w.split_chunk || w.chunks.len() == 0,
        !w.starts_chunk(pos) ==> w.step(pos, c, first, span, anchor).chunks.len()
            == w.chunks.len(),
{
}

/// No chunk exists exactly when no character was emitted.
pub proof fn lemma_no_chunk_nothing_emitted(w: Walk)
    requires
        w.inv(),
    ensures
        w.chunks.len() == 0 <==> emitted(w.chunks) == 0,
{
    if w.chunks.len() > 0 {
        assert(tiled(w.chunks.last()));
    }
}

/// As long as no character was dropped, a chunk starts at the character
/// with index `i` exactly when the character has an absolute `x` or `y`, or
/// a chunk break is pending from entering or leaving a `textPath`, or `i`
/// is 0.
pub proof fn lemma_chunk_boundary_by_index(
    w: Walk,
    pos: CharacterPosition,
    c: char,
    first: bool,
    span: SpanView,
    anchor: TextAnchor,
)
    requires
        w.inv(),
        w.dropped == 0,
    ensures
        w.step(pos, c, first, span, anchor).chunks.len() == w.chunks.len() + 1 <==> pos.x is Some
            || pos.y is Some || w.split_chunk || w.chars_count == 0,
{
    lemma_no_chunk_nothing_emitted(w);
}

struct IterState {
    chars_count: usize,
    chunk_bytes_count: usize,
    split_chunk: bool,
    text_flow: TextFlow,
    chunks: Vec<TextChunk>,
    dropped: Ghost<int>,
}

impl IterState {
    spec fn model(&self) -> Walk {
        Walk {
            chars_count: self.chars_count as int,
            chunk_bytes_count: self.chunk_bytes_count as int,
            split_chunk: self.split_chunk,
            text_flow: self.text_flow,
            chunks: chunks_view(self.chunks@),
            dropped: self.dropped@,
        }
    }
}

/// What the collection of chunks reads, in one value.
pub open spec fn env_of(
    doc: &Document,
    pos_list: &Vec<CharacterPosition>,
    text_node: NodeId,
    state: &State,
) -> Env {
    Env { d: doc@, pos: pos_list@, text_node: text_node as int, family: state.opt.font_family@ }
}

/// Passes `n` characters over.
fn skip_chars(iter_state: &mut IterState, n: usize)
    requires
        old(iter_state).model().inv(),
        old(iter_state).chars_count + n <= usize::MAX,
    ensures
        final(iter_state).model() == old(iter_state).model().skip(n as int),
        final(iter_state).model().inv(),
{
    iter_state.chars_count = iter_state.chars_count + n;
    iter_state.dropped = Ghost(iter_state.dropped@ + n);
}

/// A chunk that starts with character `c`.
fn start_chunk(pos: CharacterPosition, c: char, span: &TextSpan, anchor: TextAnchor, flow: TextFlow) -> (chunk:
    TextChunk)
    ensures
        chunk@ == fresh_chunk(pos, c, span@, anchor, flow),
{
    let mut span2 = span.duplicate();
    span2.start = 0;
    span2.end = char_len_utf8(c);
    let mut text = String::new();
    push_char(&mut text, c);
    let mut spans: Vec<TextSpan> = Vec::new();
    spans.push(span2);
    proof {
        assert(spans_view(spans@) =~= seq![span@.at(0, utf8_width(c) as int)]);
        assert(text@ =~= seq![c]);
    }
    TextChunk { x: pos.x, y: pos.y, anchor, spans, text_flow: flow, text }
}

/// Adds character `c` to a chunk that holds `bytes` bytes.
#[verifier::rlimit(40)]
fn grow_chunk(chunk: &mut TextChunk, c: char, first: bool, span: &TextSpan, bytes: usize)
    requires
        old(chunk)@.spans.len() >= 1,
        old(chunk)@.spans.last().end == bytes,
        bytes + 4 <= usize::MAX,
    ensures
        final(chunk)@ == grown_chunk(old(chunk)@, c, first, span@, bytes as int),
{
    let ghost last = chunk@;
    let char_len = char_len_utf8(c);
    push_char(&mut chunk.text, c);
    if first {
        let mut span2 = span.duplicate();
        span2.start = bytes;
        span2.end = bytes + char_len;
        chunk.spans.push(span2);
        proof {
            assert(spans_view(chunk.spans@) =~= last.spans.push(
                span@.at(bytes as int, bytes + char_len),
            ));
        }
    } else {
        let mut tail = chunk.spans.pop().unwrap();
        proof {
            assert(tail@ == last.spans.last());
        }
        tail.end = tail.end + char_len;
        chunk.spans.push(tail);
        proof {
            assert(spans_view(chunk.spans@) =~= last.spans.update(
                last.spans.len() - 1,
                SpanView { end: last.spans.last().end + char_len, ..last.spans.last() },
            ));
        }
    }
}

/// Emits one character.
#[verifier::rlimit(40)]
fn emit_char(
    iter_state: &mut IterState,
    pos: CharacterPosition,
    c: char,
    first: bool,
    span: &TextSpan,
    anchor: TextAnchor,
)
    requires
        old(iter_state).model().inv(),
        span@.font_size.positive(),
        4 * (old(iter_state).chars_count + 1) <= usize::MAX,
    ensures
        final(iter_state).model() == old(iter_state).model().step(pos, c, first, span@, anchor),
        final(iter_state).model().inv(),
{
    let ghost before = iter_state.model();
    let ghost after = before.step(pos, c, first, span@, anchor);
    proof {
        lemma_step_inv(before, pos, c, first, span@, anchor);
    }
    let char_len = char_len_utf8(c);
    let is_new_chunk = pos.x.is_some() || pos.y.is_some() || iter_state.split_chunk
        || iter_state.chunks.len() == 0;
    iter_state.split_chunk = false;
    if is_new_chunk {
        let chunk = start_chunk(pos, c, span, anchor, iter_state.text_flow);
        iter_state.chunks.push(chunk);
        iter_state.chunk_bytes_count = char_len;
        proof {
            assert(chunks_view(iter_state.chunks@) =~= after.chunks);
        }
    } else {
        let mut chunk = iter_state.chunks.pop().unwrap();
        proof {
            assert(chunk@ == before.chunks.last());
            assert(tiled(before.chunks[before.chunks.len() - 1]));
        }
        grow_chunk(&mut chunk, c, first, span, iter_state.chunk_bytes_count);
        iter_state.chunks.push(chunk);
        iter_state.chunk_bytes_count = iter_state.chunk_bytes_count + char_len;
        proof {
            assert(chunks_view(iter_state.chunks@) =~= after.chunks);
        }
    }
    iter_state.chars_count = iter_state.chars_count + 1;
}

/// Emits the characters of text node `child` of element `parent`.
#[verifier::rlimit(40)]
fn emit_text(
    doc: &Document,
    text_node: NodeId,
    parent: NodeId,
    child: NodeId,
    pos_list: &Vec<CharacterPosition>,
    state: &State,
    iter_state: &mut IterState,
    total: Ghost<int>,
)
    requires
        doc@.valid(text_node as int),
        doc@.valid(parent as int),
        doc@.valid(child as int),
        emits(doc@, parent as int),
        old(iter_state).model().inv(),
        old(iter_state).chars_count + doc@.nodes[child as int].text.len() <= total@,
        total@ <= pos_list@.len(),
        4 * total@ <= usize::MAX,
    ensures
        final(iter_state).model() == walk_text(
            env_of(doc, pos_list, text_node, state),
            old(iter_state).model(),
            parent as int,
            child as int,
            doc@.nodes[child as int].text.len() as int,
        ),
        final(iter_state).model().inv(),
        final(iter_state).chars_count == old(iter_state).chars_count
            + doc@.nodes[child as int].text.len(),
{
    let ghost env = env_of(doc, pos_list, text_node, state);
    let ghost start = iter_state.model();
    let anchor = TextAnchor::resolve(doc.find_attribute(parent, AId::TextAnchor));
    let span = resolve_span(doc, text_node, parent, child, state);
    let n = doc.text_len(child);
    let mut i: usize = 0;
    while i < n
        invariant
            doc@.valid(child as int),
            n == doc@.nodes[child as int].text.len(),
            i <= n,
            env == env_of(doc, pos_list, text_node, state),
            span@ == span_style(env.d, env.text_node, parent as int, child as int, env.family),
            span@.font_size.positive(),
            anchor == anchor_of(env.d, parent as int),
            iter_state.model() == walk_text(env, start, parent as int, child as int, i as int),
            iter_state.model().inv(),
            iter_state.chars_count == start.chars_count + i,
            start.chars_count + n <= total@,
            total@ <= pos_list@.len(),
            4 * total@ <= usize::MAX,
        decreases n - i,
    {
        let c = doc.text_char(child, i);
        let pos = pos_list[iter_state.chars_count];
        emit_char(iter_state, pos, c, i == 0, &span, anchor);
        i = i + 1;
    }
}

/// Walks the children of `parent`, a node at or below the text element
/// `text_node`, and adds what they emit to `iter_state`.
#[verifier::rlimit(40)]
fn collect_text_chunks_impl(
    doc: &Document,
    text_node: NodeId,
    parent: NodeId,
    pos_list: &Vec<CharacterPosition>,
    state: &State,
    iter_state: &mut IterState,
    total: Ghost<int>,
)
    requires
        doc.wf(),
        doc@.valid(text_node as int),
        doc@.closed(parent as int),
        old(iter_state).model().inv(),
        old(iter_state).chars_count + doc@.chars_in(
            parent + 1,
            doc@.nodes[parent as int].end,
        ) <= total@,
        total@ <= pos_list@.len(),
        4 * total@ <= usize::MAX,
    ensures
        final(iter_state).model() == walk_children(
            env_of(doc, pos_list, text_node, state),
            parent as int,
            parent + 1,
            old(iter_state).model(),
        ),
        final(iter_state).model().inv(),
        final(iter_state).chars_count == old(iter_state).chars_count + doc@.chars_in(
            parent + 1,
            doc@.nodes[parent as int].end,
        ),
    decreases doc@.len() - parent,
{
    let ghost env = env_of(doc, pos_list, text_node, state);
    let ghost start = iter_state.model();
    let end = doc.subtree_end(parent);
    proof {
        assert(doc@.node_wf(parent as int));
        assert(doc@.chars_in(parent + 1, parent + 1) == 0);
    }
    let parent_is_text = match doc.tag_name(parent) {
        Some(EId::Text) => true,
        _ => false,
    };
    let mut c: usize = parent + 1;
    while c < end
        invariant
            doc.wf(),
            doc@.valid(text_node as int),
            doc@.closed(parent as int),
            end == doc@.nodes[parent as int].end,
            parent < c <= end <= doc@.len(),
            env == env_of(doc, pos_list, text_node, state),
            parent_is_text == (doc@.nodes[parent as int].tag == Some(EId::Text)),
            iter_state.model().inv(),
            walk_children(env, parent as int, parent + 1, start) == walk_children(
                env,
                parent as int,
                c as int,
                iter_state.model(),
            ),
            iter_state.chars_count == start.chars_count + doc@.chars_in(parent + 1, c as int),
            start.chars_count + doc@.chars_in(parent + 1, end as int) <= total@,
            total@ <= pos_list@.len(),
            4 * total@ <= usize::MAX,
        decreases end - c,
    {
        let ghost before = iter_state.model();
        proof {
            lemma_inner_chars(doc@, parent as int, c as int);
            assert(doc@.node_wf(c as int));
        }
        let c_end = doc.subtree_end(c);
        proof {
            lemma_chars_in_split(doc@, parent + 1, c as int, c_end as int);
            lemma_chars_in_split(doc@, parent + 1, c_end as int, end as int);
            lemma_chars_in_split(doc@, c as int, c + 1, c_end as int);
            assert(doc@.chars_in(c as int, c as int) == 0);
            assert(doc@.chars_in(c as int, c + 1) == doc@.nodes[c as int].text.len());
        }
        match doc.kind(c) {
            NodeKind::Element => {
                let is_text_path = match doc.tag_name(c) {
                    Some(EId::TextPath) => true,
                    _ => false,
                };
                let mut enter = true;
                if is_text_path {
                    if !parent_is_text {
                        // Only a direct child of `text` may be a `textPath`.
                        enter = false;
                    } else {
                        match resolve_text_flow(doc, c) {
                            Some(v) => {
                                iter_state.text_flow = v;
                                iter_state.split_chunk = true;
                            },
                            None => {
                                enter = false;
                            },
                        }
                    }
                }
                if enter {
                    collect_text_chunks_impl(
                        doc,
                        text_node,
                        c,
                        pos_list,
                        state,
                        iter_state,
                        total,
                    );
                    iter_state.text_flow = TextFlow::Linear;
                    // The character after a `textPath` starts a chunk too.
                    if is_text_path {
                        iter_state.split_chunk = true;
                    }
                } else {
                    // The positions were counted with these characters in.
                    let n = doc.count_chars(c);
                    skip_chars(iter_state, n);
                }
            },
            NodeKind::Text => {
                let resolved = doc.resolved(parent);
                let visible = !is_token(doc.attribute(parent, AId::Display), "none")
                    && resolved.visible;
                if visible && resolved.font_size.is_positive() {
                    emit_text(doc, text_node, parent, c, pos_list, state, iter_state, total);
                } else {
                    skip_chars(iter_state, doc.text_len(c));
                }
            },
            NodeKind::Root => {},
        }
        proof {
            assert(iter_state.model() == walk_child(env, parent as int, c as int, before));
        }
        c = c_end;
    }
}

/// The chunks of the closed text element `text_node`, whose characters have
/// the positions `pos_list`.
///
/// The chunks are those of [`walk_of`]. Each is tiled by its spans, whose
/// font sizes are above zero, and the characters of the element are,
/// between them, the characters in the chunks and the characters dropped.
pub fn collect_text_chunks(
    doc: &Document,
    text_node: NodeId,
    pos_list: &Vec<CharacterPosition>,
    state: &State,
) -> (chunks: Vec<TextChunk>)
    requires
        doc.wf(),
        doc@.closed(text_node as int),
        doc@.nodes[text_node as int].kind == NodeKind::Element,
        pos_list@.len() >= doc@.count_chars(text_node as int),
    ensures
        chunks_view(chunks@) == walk_of(env_of(doc, pos_list, text_node, state)).chunks,
        forall|i: int| 0 <= i < chunks@.len() ==> tiled(#[trigger] chunks_view(chunks@)[i]),
        forall|i: int| 0 <= i < chunks@.len() ==> sized(#[trigger] chunks_view(chunks@)[i]),
        emitted(chunks_view(chunks@)) + walk_of(env_of(doc, pos_list, text_node, state)).dropped
            == doc@.count_chars(text_node as int),
        walk_of(env_of(doc, pos_list, text_node, state)).inv(),
        walk_of(env_of(doc, pos_list, text_node, state)).chars_count == doc@.count_chars(
            text_node as int,
        ),
{
    let mut iter_state = IterState {
        chars_count: 0,
        chunk_bytes_count: 0,
        split_chunk: false,
        text_flow: TextFlow::Linear,
        chunks: Vec::new(),
        dropped: Ghost(0),
    };
    proof {
        assert(chunks_view(iter_state.chunks@) =~= Seq::<ChunkView>::empty());
        assert(iter_state.model() == Walk::start());
        assert(doc@.node_wf(text_node as int));
        lemma_inner_chars(doc@, text_node as int, text_node as int);
        lemma_chars_in_split(
            doc@,
            text_node as int,
            text_node + 1,
            doc@.nodes[text_node as int].end,
        );
        assert(doc@.chars_in(text_node as int, text_node as int) == 0);
        assert(doc@.chars_in(text_node as int, text_node + 1) == 0);
    }
    collect_text_chunks_impl(
        doc,
        text_node,
        text_node,
        pos_list,
        state,
        &mut iter_state,
        Ghost(doc@.count_chars(text_node as int) as int),
    );
    iter_state.chunks
}

} // verus!
