use vstd::prelude::*;
use crate::baseline::{baseline_shift_of, convert_baseline_shift};
use crate::converter::State;
use crate::decoration::{decoration_of, resolve_decoration};
use crate::font::{convert_font, font_of};
use crate::names::{same_text, AId};
use crate::svgtree::{is_token, DocView, Document, NodeId, NodeKind};
use crate::text::{
    strings_view, AlignmentBaseline, DominantBaseline, Font, LengthAdjust, PaintOrder,
    PaintOrderKind, SpanView, TextAnchor, TextFlow, TextSpan, Visibility, WritingMode,
};
use crate::number::Number;

verus! {

/// The paint order that a `paint-order` value stands for, as
/// `svgtypes::PaintOrder::from_str` reads it.
pub uninterp spec fn paint_order_text(text: Seq<char>) -> PaintOrder;

/// `<svgtypes::PaintOrder as FromStr>::from_str`: the result depends on the
/// text alone and holds each of the three kinds once. The call never fails;
/// what it cannot read it answers with the normal order.
#[verifier::external_body]
fn parse_paint_order(text: &str) -> (r: PaintOrder)
    ensures
        r == paint_order_text(text@),
        r.is_permutation(),
{
    let parsed = <svgtypes::PaintOrder as std::str::FromStr>::from_str(text).unwrap_or_default();
    let order = parsed.order.map(
        |k| match k {
            svgtypes::PaintOrderKind::Fill => PaintOrderKind::Fill,
            svgtypes::PaintOrderKind::Stroke => PaintOrderKind::Stroke,
            svgtypes::PaintOrderKind::Markers => PaintOrderKind::Markers,
        },
    );
    PaintOrder { first: order[0], second: order[1], third: order[2] }
}

/// The paint order of node `i`: what the nearest `paint-order` at or above
/// it stands for, or the normal order.
pub open spec fn paint_order_of(d: DocView, i: int) -> PaintOrder {
    match d.find_attribute(i, AId::PaintOrder) {
        Some(v) => paint_order_text(v),
        None => PaintOrder::normal(),
    }
}

/// The paint order of node `node`.
pub fn resolve_paint_order(doc: &Document, node: NodeId) -> (r: PaintOrder)
    requires
        doc@.valid(node as int),
    ensures
        r == paint_order_of(doc@, node as int),
        r.is_permutation(),
{
    match doc.find_attribute(node, AId::PaintOrder) {
        Some(v) => parse_paint_order(v),
        None => PaintOrder {
            first: PaintOrderKind::Fill,
            second: PaintOrderKind::Stroke,
            third: PaintOrderKind::Markers,
        },
    }
}

/// The writing mode that a `writing-mode` value stands for.
pub open spec fn writing_mode_of(value: Option<Seq<char>>) -> WritingMode {
    match value {
        Some(v) => if v == "tb"@ || v == "tb-rl"@ || v == "vertical-rl"@ || v == "vertical-lr"@ {
            WritingMode::TopToBottom
        } else {
            WritingMode::LeftToRight
        },
        None => WritingMode::LeftToRight,
    }
}

/// The writing mode of node `text_node`, from the nearest `writing-mode` at
/// or above it.
pub fn convert_writing_mode(doc: &Document, text_node: NodeId) -> (r: WritingMode)
    requires
        doc@.valid(text_node as int),
    ensures
        r == writing_mode_of(doc@.find_attribute(text_node as int, AId::WritingMode)),
{
    match doc.find_attribute(text_node, AId::WritingMode) {
        Some(v) => if same_text(v, "tb") || same_text(v, "tb-rl") || same_text(v, "vertical-rl")
            || same_text(v, "vertical-lr") {
            WritingMode::TopToBottom
        } else {
            WritingMode::LeftToRight
        },
        None => WritingMode::LeftToRight,
    }
}

/// The element that node `i` is a child of, if it is the child of one.
pub open spec fn parent_element(d: DocView, i: int) -> Option<int> {
    let p = d.nodes[i].parent;
    if d.valid(i) && 0 <= p < i && d.nodes[p].kind == NodeKind::Element {
        Some(p)
    } else {
        None
    }
}

/// The dominant baseline of node `i`. `no-change` hands the question to the
/// parent element; without one the answer is `Auto`.
pub open spec fn dominant_baseline_of(d: DocView, i: int) -> DominantBaseline {
    let own = DominantBaseline::resolved(d.find_attribute(i, AId::DominantBaseline));
    if own == DominantBaseline::NoChange {
        match parent_element(d, i) {
            Some(p) => DominantBaseline::resolved(d.find_attribute(p, AId::DominantBaseline)),
            None => DominantBaseline::Auto,
        }
    } else {
        own
    }
}

/// Kerning applies to node `i`: its `kerning` is not zero and the
/// `font-kerning` it inherits is not `none`.
pub open spec fn apply_kerning_of(d: DocView, i: int) -> bool {
    !d.nodes[i].resolved.kerning.zero() && d.find_attribute(i, AId::FontKerning) != Some(
        "none"@,
    )
}

/// The text length of node `i`; a negative one counts as none.
pub open spec fn text_length_of(d: DocView, i: int) -> Option<Number> {
    match d.nodes[i].resolved.text_length {
        Some(n) => if n.negative() {
            None
        } else {
            Some(n)
        },
        None => None,
    }
}

/// The title of the characters of text node `child` in element `parent`.
pub open spec fn title_of(d: DocView, parent: int, child: int) -> Option<Seq<char>> {
    match d.nodes[child].title {
        Some(t) => Some(t),
        None => d.nodes[parent].title,
    }
}

/// The anchor of a chunk that starts in element `i`.
pub open spec fn anchor_of(d: DocView, i: int) -> TextAnchor {
    TextAnchor::resolved(d.find_attribute(i, AId::TextAnchor))
}

/// The style of the characters of text node `child` in element `parent`,
/// inside the text element `text_node`, over no bytes yet.
pub open spec fn span_style(
    d: DocView,
    text_node: int,
    parent: int,
    child: int,
    default_family: Seq<char>,
) -> SpanView {
    SpanView {
        start: 0,
        end: 0,
        fill: d.nodes[parent].resolved.fill,
        stroke: d.nodes[parent].resolved.stroke,
        paint_order: paint_order_of(d, parent),
        font: font_of(d, parent, default_family),
        font_size: d.nodes[parent].resolved.font_size,
        small_caps: d.find_attribute(parent, AId::FontVariant) == Some("small-caps"@),
        apply_kerning: apply_kerning_of(d, parent),
        decoration: decoration_of(d, text_node, parent),
        visibility: Visibility::resolved(d.find_attribute(parent, AId::Visibility)),
        dominant_baseline: dominant_baseline_of(d, parent),
        alignment_baseline: AlignmentBaseline::resolved(
            d.find_attribute(parent, AId::AlignmentBaseline),
        ),
        baseline_shift: baseline_shift_of(d, parent),
        letter_spacing: d.nodes[parent].resolved.letter_spacing,
        word_spacing: d.nodes[parent].resolved.word_spacing,
        text_length: text_length_of(d, parent),
        length_adjust: LengthAdjust::resolved(d.find_attribute(parent, AId::LengthAdjust)),
        title: title_of(d, parent, child),
    }
}

/// The flow that a `textPath` element asks for, if its reference led to a
/// usable outline.
pub open spec fn flow_of(d: DocView, i: int) -> Option<TextFlow> {
    match d.nodes[i].resolved.text_path {
        Some(p) => Some(TextFlow::Path(p)),
        None => None,
    }
}

/// The flow that the `textPath` element `node` asks for.
pub fn resolve_text_flow(doc: &Document, node: NodeId) -> (r: Option<TextFlow>)
    requires
        doc@.valid(node as int),
    ensures
        r == flow_of(doc@, node as int),
{
    match doc.resolved(node).text_path {
        Some(p) => Some(TextFlow::Path(p)),
        None => None,
    }
}

/// The dominant baseline of node `node`.
pub fn resolve_dominant_baseline(doc: &Document, node: NodeId) -> (r: DominantBaseline)
    requires
        doc@.valid(node as int),
    ensures
        r == dominant_baseline_of(doc@, node as int),
{
    let own = DominantBaseline::resolve(doc.find_attribute(node, AId::DominantBaseline));
    match own {
        DominantBaseline::NoChange => {
            let p = doc.parent(node);
            if p < node {
                match doc.kind(p) {
                    NodeKind::Element => DominantBaseline::resolve(
                        doc.find_attribute(p, AId::DominantBaseline),
                    ),
                    _ => DominantBaseline::Auto,
                }
            } else {
                DominantBaseline::Auto
            }
        },
        _ => own,
    }
}

/// A copy of a list of strings.
fn copy_strings(list: &Vec<String>) -> (r: Vec<String>)
    ensures
        strings_view(r@) == strings_view(list@),
{
    let mut r: Vec<String> = Vec::new();
    let mut i: usize = 0;
    while i < list.len()
        invariant
            i <= list@.len(),
            r@.len() == i,
            forall|k: int| 0 <= k < i ==> (#[trigger] r@[k])@ == list@[k]@,
        decreases list.len() - i,
    {
        r.push(list[i].clone());
        i = i + 1;
    }
    proof {
        assert(strings_view(r@) =~= strings_view(list@));
    }
    r
}

impl Font {
    /// A copy of the font.
    pub fn duplicate(&self) -> (r: Font)
        ensures
            r@ == self@,
    {
        Font {
            families: copy_strings(&self.families),
            style: self.style,
            stretch: self.stretch,
            weight: self.weight,
        }
    }
}

impl TextSpan {
    /// A copy of the span.
    pub fn duplicate(&self) -> (r: TextSpan)
        ensures
            r@ == self@,
    {
        let mut shift = Vec::new();
        let mut i: usize = 0;
        while i < self.baseline_shift.len()
            invariant
                i <= self.baseline_shift@.len(),
                shift@ == self.baseline_shift@.take(i as int),
            decreases self.baseline_shift.len() - i,
        {
            shift.push(self.baseline_shift[i]);
            proof {
                assert(self.baseline_shift@.take(i as int).push(self.baseline_shift@[i as int])
                    =~= self.baseline_shift@.take(i as int + 1));
            }
            i = i + 1;
        }
        proof {
            assert(self.baseline_shift@.take(self.baseline_shift@.len() as int)
                =~= self.baseline_shift@);
        }
        let title = match &self.title {
            Some(t) => Some(t.clone()),
            None => None,
        };
        TextSpan {
            start: self.start,
            end: self.end,
            fill: self.fill,
            stroke: self.stroke,
            paint_order: self.paint_order,
            font: self.font.duplicate(),
            font_size: self.font_size,
            small_caps: self.small_caps,
            apply_kerning: self.apply_kerning,
            decoration: self.decoration,
            visibility: self.visibility,
            dominant_baseline: self.dominant_baseline,
            alignment_baseline: self.alignment_baseline,
            baseline_shift: shift,
            letter_spacing: self.letter_spacing,
            word_spacing: self.word_spacing,
            text_length: self.text_length,
            length_adjust: self.length_adjust,
            title,
        }
    }
}

/// The style of the characters of text node `child` in element `parent`,
/// inside the text element `text_node`, over no bytes yet.
pub fn resolve_span(
    doc: &Document,
    text_node: NodeId,
    parent: NodeId,
    child: NodeId,
    state: &State,
) -> (span: TextSpan)
    requires
        doc@.valid(text_node as int),
        doc@.valid(parent as int),
        doc@.valid(child as int),
    ensures
        span@ == span_style(
            doc@,
            text_node as int,
            parent as int,
            child as int,
            state.opt.font_family@,
        ),
{
    let resolved = doc.resolved(parent);
    let font = convert_font(doc, parent, state);
    let paint_order = resolve_paint_order(doc, parent);
    let dominant_baseline = resolve_dominant_baseline(doc, parent);
    let mut apply_kerning = true;
    if resolved.kerning.is_zero() {
        apply_kerning = false;
    } else if is_token(doc.find_attribute(parent, AId::FontKerning), "none") {
        apply_kerning = false;
    }
    let mut text_length = resolved.text_length;
    if let Some(n) = text_length {
        if n.is_negative() {
            text_length = None;
        }
    }
    let title = match doc.title(child) {
        Some(t) => Some(t.to_owned()),
        None => match doc.title(parent) {
            Some(t) => Some(t.to_owned()),
            None => None,
        },
    };
    TextSpan {
        start: 0,
        end: 0,
        fill: resolved.fill,
        stroke: resolved.stroke,
        paint_order,
        font,
        font_size: resolved.font_size,
        small_caps: is_token(doc.find_attribute(parent, AId::FontVariant), "small-caps"),
        apply_kerning,
        decoration: resolve_decoration(doc, text_node, parent),
        visibility: Visibility::resolve(doc.find_attribute(parent, AId::Visibility)),
        dominant_baseline,
        alignment_baseline: AlignmentBaseline::resolve(
            doc.find_attribute(parent, AId::AlignmentBaseline),
        ),
        baseline_shift: convert_baseline_shift(doc, parent),
        letter_spacing: resolved.letter_spacing,
        word_spacing: resolved.word_spacing,
        text_length,
        length_adjust: LengthAdjust::resolve(doc.find_attribute(parent, AId::LengthAdjust)),
        title,
    }
}

} // verus!
