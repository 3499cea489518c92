use vstd::prelude::*;
use crate::names::same_text;
use crate::number::Number;
use crate::style::{Fill, Stroke};
use crate::chunks::{collect_text_chunks, emitted, env_of, sized, tiled, walk_of, Env};
use crate::converter::State;
use crate::names::AId;
use crate::positions::{positions_of, resolve_positions_list, resolve_rotate_list, rotate_of};
use crate::span::{convert_writing_mode, writing_mode_of};
use crate::svgtree::{DocView, Document, NodeId, NodeKind, TextPath};

verus! {

/// How a chunk is aligned to its anchor point.
#[derive(Clone, Copy, Debug, PartialEq, Eq, Structural)]
pub enum TextAnchor {
    Start,
    Middle,
    End,
}

impl TextAnchor {
    /// The value that a token stands for; an unknown token stands for none.
    pub open spec fn parsed(value: Seq<char>) -> Option<TextAnchor> {
        if value == "start"@ {
            Some(TextAnchor::Start)
        } else if value == "middle"@ {
            Some(TextAnchor::Middle)
        } else if value == "end"@ {
            Some(TextAnchor::End)
        } else {
            None
        }
    }

    /// The value of an optional token, `Start` standing in where the token
    /// is absent or unknown.
    pub open spec fn resolved(value: Option<Seq<char>>) -> TextAnchor {
        match value {
            Some(v) => match TextAnchor::parsed(v) {
                Some(r) => r,
                None => TextAnchor::Start,
            },
            None => TextAnchor::Start,
        }
    }

    /// Reads a token; an unknown token gives `None`.
    pub fn parse(value: &str) -> (r: Option<TextAnchor>)
        ensures
            r == TextAnchor::parsed(value@),
    {
        if same_text(value, "start") {
            Some(TextAnchor::Start)
        } else if same_text(value, "middle") {
            Some(TextAnchor::Middle)
        } else if same_text(value, "end") {
            Some(TextAnchor::End)
        } else {
            None
        }
    }

    /// Reads an optional token, with `Start` where it is absent or unknown.
    pub fn resolve(value: Option<&str>) -> (r: TextAnchor)
        ensures
            r == TextAnchor::resolved(crate::svgtree::str_view(value)),
    {
        match value {
            Some(v) => match TextAnchor::parse(v) {
                Some(r) => r,
                None => TextAnchor::Start,
            },
            None => TextAnchor::Start,
        }
    }
}

/// The `alignment-baseline` property.
#[derive(Clone, Copy, Debug, PartialEq, Eq, Structural)]
pub enum AlignmentBaseline {
    Auto,
    Baseline,
    BeforeEdge,
    TextBeforeEdge,
    Middle,
    Central,
    AfterEdge,
    TextAfterEdge,
    Ideographic,
    Alphabetic,
    Hanging,
    Mathematical,
}

impl AlignmentBaseline {
    /// The value that a token stands for; an unknown token stands for none.
    pub open spec fn parsed(value: Seq<char>) -> Option<AlignmentBaseline> {
        if value == "auto"@ {
            Some(AlignmentBaseline::Auto)
        } else if value == "baseline"@ {
            Some(AlignmentBaseline::Baseline)
        } else if value == "before-edge"@ {
            Some(AlignmentBaseline::BeforeEdge)
        } else if value == "text-before-edge"@ {
            Some(AlignmentBaseline::TextBeforeEdge)
        } else if value == "middle"@ {
            Some(AlignmentBaseline::Middle)
        } else if value == "central"@ {
            Some(AlignmentBaseline::Central)
        } else if value == "after-edge"@ {
            Some(AlignmentBaseline::AfterEdge)
        } else if value == "text-after-edge"@ {
            Some(AlignmentBaseline::TextAfterEdge)
        } else if value == "ideographic"@ {
            Some(AlignmentBaseline::Ideographic)
        } else if value == "alphabetic"@ {
            Some(AlignmentBaseline::Alphabetic)
        } else if value == "hanging"@ {
            Some(AlignmentBaseline::Hanging)
        } else if value == "mathematical"@ {
            Some(AlignmentBaseline::Mathematical)
        } else {
            None
        }
    }

    /// The value of an optional token, `Auto` standing in where the token
    /// is absent or unknown.
    pub open spec fn resolved(value: Option<Seq<char>>) -> AlignmentBaseline {
        match value {
            Some(v) => match AlignmentBaseline::parsed(v) {
                Some(r) => r,
                None => AlignmentBaseline::Auto,
            },
            None => AlignmentBaseline::Auto,
        }
    }

    /// Reads a token; an unknown token gives `None`.
    pub fn parse(value: &str) -> (r: Option<AlignmentBaseline>)
        ensures
            r == AlignmentBaseline::parsed(value@),
    {
        if same_text(value, "auto") {
            Some(AlignmentBaseline::Auto)
        } else if same_text(value, "baseline") {
            Some(AlignmentBaseline::Baseline)
        } else if same_text(value, "before-edge") {
            Some(AlignmentBaseline::BeforeEdge)
        } else if same_text(value, "text-before-edge") {
            Some(AlignmentBaseline::TextBeforeEdge)
        } else if same_text(value, "middle") {
            Some(AlignmentBaseline::Middle)
        } else if same_text(value, "central") {
            Some(AlignmentBaseline::Central)
        } else if same_text(value, "after-edge") {
            Some(AlignmentBaseline::AfterEdge)
        } else if same_text(value, "text-after-edge") {
            Some(AlignmentBaseline::TextAfterEdge)
        } else if same_text(value, "ideographic") {
            Some(AlignmentBaseline::Ideographic)
        } else if same_text(value, "alphabetic") {
            Some(AlignmentBaseline::Alphabetic)
        } else if same_text(value, "hanging") {
            Some(AlignmentBaseline::Hanging)
        } else if same_text(value, "mathematical") {
            Some(AlignmentBaseline::Mathematical)
        } else {
            None
        }
    }

    /// Reads an optional token, with `Auto` where it is absent or unknown.
    pub fn resolve(value: Option<&str>) -> (r: AlignmentBaseline)
        ensures
            r == AlignmentBaseline::resolved(crate::svgtree::str_view(value)),
    {
        match value {
            Some(v) => match AlignmentBaseline::parse(v) {
                Some(r) => r,
                None => AlignmentBaseline::Auto,
            },
            None => AlignmentBaseline::Auto,
        }
    }
}

/// The `dominant-baseline` property.
#[derive(Clone, Copy, Debug, PartialEq, Eq, Structural)]
pub enum DominantBaseline {
    Auto,
    UseScript,
    NoChange,
    ResetSize,
    Ideographic,
    Alphabetic,
    Hanging,
    Mathematical,
    Central,
    Middle,
    TextAfterEdge,
    TextBeforeEdge,
}

impl DominantBaseline {
    /// The value that a token stands for; an unknown token stands for none.
    pub open spec fn parsed(value: Seq<char>) -> Option<DominantBaseline> {
        if value == "auto"@ {
            Some(DominantBaseline::Auto)
        } else if value == "use-script"@ {
            Some(DominantBaseline::UseScript)
        } else if value == "no-change"@ {
            Some(DominantBaseline::NoChange)
        } else if value == "reset-size"@ {
            Some(DominantBaseline::ResetSize)
        } else if value == "ideographic"@ {
            Some(DominantBaseline::Ideographic)
        } else if value == "alphabetic"@ {
            Some(DominantBaseline::Alphabetic)
        } else if value == "hanging"@ {
            Some(DominantBaseline::Hanging)
        } else if value == "mathematical"@ {
            Some(DominantBaseline::Mathematical)
        } else if value == "central"@ {
            Some(DominantBaseline::Central)
        } else if value == "middle"@ {
            Some(DominantBaseline::Middle)
        } else if value == "text-after-edge"@ {
            Some(DominantBaseline::TextAfterEdge)
        } else if value == "text-before-edge"@ {
            Some(DominantBaseline::TextBeforeEdge)
        } else {
            None
        }
    }

    /// The value of an optional token, `Auto` standing in where the token
    /// is absent or unknown.
    pub open spec fn resolved(value: Option<Seq<char>>) -> DominantBaseline {
        match value {
            Some(v) => match DominantBaseline::parsed(v) {
                Some(r) => r,
                None => DominantBaseline::Auto,
            },
            None => DominantBaseline::Auto,
        }
    }

    /// Reads a token; an unknown token gives `None`.
    pub fn parse(value: &str) -> (r: Option<DominantBaseline>)
        ensures
            r == DominantBaseline::parsed(value@),
    {
        if same_text(value, "auto") {
            Some(DominantBaseline::Auto)
        } else if same_text(value, "use-script") {
            Some(DominantBaseline::UseScript)
        } else if same_text(value, "no-change") {
            Some(DominantBaseline::NoChange)
        } else if same_text(value, "reset-size") {
            Some(DominantBaseline::ResetSize)
        } else if same_text(value, "ideographic") {
            Some(DominantBaseline::Ideographic)
        } else if same_text(value, "alphabetic") {
            Some(DominantBaseline::Alphabetic)
        } else if same_text(value, "hanging") {
            Some(DominantBaseline::Hanging)
        } else if same_text(value, "mathematical") {
            Some(DominantBaseline::Mathematical)
        } else if same_text(value, "central") {
            Some(DominantBaseline::Central)
        } else if same_text(value, "middle") {
            Some(DominantBaseline::Middle)
        } else if same_text(value, "text-after-edge") {
            Some(DominantBaseline::TextAfterEdge)
        } else if same_text(value, "text-before-edge") {
            Some(DominantBaseline::TextBeforeEdge)
        } else {
            None
        }
    }

    /// Reads an optional token, with `Auto` where it is absent or unknown.
    pub fn resolve(value: Option<&str>) -> (r: DominantBaseline)
        ensures
            r == DominantBaseline::resolved(crate::svgtree::str_view(value)),
    {
        match value {
            Some(v) => match DominantBaseline::parse(v) {
                Some(r) => r,
                None => DominantBaseline::Auto,
            },
            None => DominantBaseline::Auto,
        }
    }
}

/// What is stretched to reach a requested text length.
#[derive(Clone, Copy, Debug, PartialEq, Eq, Structural)]
pub enum LengthAdjust {
    Spacing,
    SpacingAndGlyphs,
}

impl LengthAdjust {
    /// The value that a token stands for; an unknown token stands for none.
    pub open spec fn parsed(value: Seq<char>) -> Option<LengthAdjust> {
        if value == "spacing"@ {
            Some(LengthAdjust::Spacing)
        } else if value == "spacingAndGlyphs"@ {
            Some(LengthAdjust::SpacingAndGlyphs)
        } else {
            None
        }
    }

    /// The value of an optional token, `Spacing` standing in where the token
    /// is absent or unknown.
    pub open spec fn resolved(value: Option<Seq<char>>) -> LengthAdjust {
        match value {
            Some(v) => match LengthAdjust::parsed(v) {
                Some(r) => r,
                None => LengthAdjust::Spacing,
            },
            None => LengthAdjust::Spacing,
        }
    }

    /// Reads a token; an unknown token gives `None`.
    pub fn parse(value: &str) -> (r: Option<LengthAdjust>)
        ensures
            r == LengthAdjust::parsed(value@),
    {
        if same_text(value, "spacing") {
            Some(LengthAdjust::Spacing)
        } else if same_text(value, "spacingAndGlyphs") {
            Some(LengthAdjust::SpacingAndGlyphs)
        } else {
            None
        }
    }

    /// Reads an optional token, with `Spacing` where it is absent or unknown.
    pub fn resolve(value: Option<&str>) -> (r: LengthAdjust)
        ensures
            r == LengthAdjust::resolved(crate::svgtree::str_view(value)),
    {
        match value {
            Some(v) => match LengthAdjust::parse(v) {
                Some(r) => r,
                None => LengthAdjust::Spacing,
            },
            None => LengthAdjust::Spacing,
        }
    }
}

/// The `font-style` property.
#[derive(Clone, Copy, Debug, PartialEq, Eq, Structural)]
pub enum FontStyle {
    Normal,
    Italic,
    Oblique,
}

impl FontStyle {
    /// The value that a token stands for; an unknown token stands for none.
    pub open spec fn parsed(value: Seq<char>) -> Option<FontStyle> {
        if value == "normal"@ {
            Some(FontStyle::Normal)
        } else if value == "italic"@ {
            Some(FontStyle::Italic)
        } else if value == "oblique"@ {
            Some(FontStyle::Oblique)
        } else {
            None
        }
    }

    /// The value of an optional token, `Normal` standing in where the token
    /// is absent or unknown.
    pub open spec fn resolved(value: Option<Seq<char>>) -> FontStyle {
        match value {
            Some(v) => match FontStyle::parsed(v) {
                Some(r) => r,
                None => FontStyle::Normal,
            },
            None => FontStyle::Normal,
        }
    }

    /// Reads a token; an unknown token gives `None`.
    pub fn parse(value: &str) -> (r: Option<FontStyle>)
        ensures
            r == FontStyle::parsed(value@),
    {
        if same_text(value, "normal") {
            Some(FontStyle::Normal)
        } else if same_text(value, "italic") {
            Some(FontStyle::Italic)
        } else if same_text(value, "oblique") {
            Some(FontStyle::Oblique)
        } else {
            None
        }
    }

    /// Reads an optional token, with `Normal` where it is absent or unknown.
    pub fn resolve(value: Option<&str>) -> (r: FontStyle)
        ensures
            r == FontStyle::resolved(crate::svgtree::str_view(value)),
    {
        match value {
            Some(v) => match FontStyle::parse(v) {
                Some(r) => r,
                None => FontStyle::Normal,
            },
            None => FontStyle::Normal,
        }
    }
}

/// The `visibility` property.
#[derive(Clone, Copy, Debug, PartialEq, Eq, Structural)]
pub enum Visibility {
    Visible,
    Hidden,
    Collapse,
}

impl Visibility {
    /// The value that a token stands for; an unknown token stands for none.
    pub open spec fn parsed(value: Seq<char>) -> Option<Visibility> {
        if value == "visible"@ {
            Some(Visibility::Visible)
        } else if value == "hidden"@ {
            Some(Visibility::Hidden)
        } else if value == "collapse"@ {
            Some(Visibility::Collapse)
        } else {
            None
        }
    }

    /// The value of an optional token, `Visible` standing in where the token
    /// is absent or unknown.
    pub open spec fn resolved(value: Option<Seq<char>>) -> Visibility {
        match value {
            Some(v) => match Visibility::parsed(v) {
                Some(r) => r,
                None => Visibility::Visible,
            },
            None => Visibility::Visible,
        }
    }

    /// Reads a token; an unknown token gives `None`.
    pub fn parse(value: &str) -> (r: Option<Visibility>)
        ensures
            r == Visibility::parsed(value@),
    {
        if same_text(value, "visible") {
            Some(Visibility::Visible)
        } else if same_text(value, "hidden") {
            Some(Visibility::Hidden)
        } else if same_text(value, "collapse") {
            Some(Visibility::Collapse)
        } else {
            None
        }
    }

    /// Reads an optional token, with `Visible` where it is absent or unknown.
    pub fn resolve(value: Option<&str>) -> (r: Visibility)
        ensures
            r == Visibility::resolved(crate::svgtree::str_view(value)),
    {
        match value {
            Some(v) => match Visibility::parse(v) {
                Some(r) => r,
                None => Visibility::Visible,
            },
            None => Visibility::Visible,
        }
    }
}

/// The `text-rendering` hint.
#[derive(Clone, Copy, Debug, PartialEq, Eq, Structural)]
pub enum TextRendering {
    OptimizeSpeed,
    OptimizeLegibility,
    GeometricPrecision,
}

impl TextRendering {
    /// The value that a token stands for; an unknown token stands for none.
    pub open spec fn parsed(value: Seq<char>) -> Option<TextRendering> {
        if value == "optimizeSpeed"@ {
            Some(TextRendering::OptimizeSpeed)
        } else if value == "optimizeLegibility"@ {
            Some(TextRendering::OptimizeLegibility)
        } else if value == "auto"@ {
            Some(TextRendering::OptimizeLegibility)
        } else if value == "geometricPrecision"@ {
            Some(TextRendering::GeometricPrecision)
        } else {
            None
        }
    }

    /// Reads a token; an unknown token gives `None`.
    pub fn parse(value: &str) -> (r: Option<TextRendering>)
        ensures
            r == TextRendering::parsed(value@),
    {
        if same_text(value, "optimizeSpeed") {
            Some(TextRendering::OptimizeSpeed)
        } else if same_text(value, "optimizeLegibility") {
            Some(TextRendering::OptimizeLegibility)
        } else if same_text(value, "auto") {
            Some(TextRendering::OptimizeLegibility)
        } else if same_text(value, "geometricPrecision") {
            Some(TextRendering::GeometricPrecision)
        } else {
            None
        }
    }

}

/// Width class of a font.
#[derive(Clone, Copy, Debug, PartialEq, Eq, Structural)]
pub enum FontStretch {
    UltraCondensed,
    ExtraCondensed,
    Condensed,
    SemiCondensed,
    Normal,
    SemiExpanded,
    Expanded,
    ExtraExpanded,
    UltraExpanded,
}

/// Direction in which successive glyphs advance.
#[derive(Clone, Copy, Debug, PartialEq, Eq, Structural)]
pub enum WritingMode {
    LeftToRight,
    TopToBottom,
}

/// One of the three things painted for a shape.
#[derive(Clone, Copy, Debug, PartialEq, Eq, Structural)]
pub enum PaintOrderKind {
    Fill,
    Stroke,
    Markers,
}

/// The order in which fill, stroke and markers are painted.
#[derive(Clone, Copy, Debug, PartialEq, Eq, Structural)]
pub struct PaintOrder {
    pub first: PaintOrderKind,
    pub second: PaintOrderKind,
    pub third: PaintOrderKind,
}

impl PaintOrder {
    /// Fill, then stroke, then markers.
    pub open spec fn normal() -> PaintOrder {
        PaintOrder {
            first: PaintOrderKind::Fill,
            second: PaintOrderKind::Stroke,
            third: PaintOrderKind::Markers,
        }
    }

    /// Each of the three kinds occurs once.
    pub open spec fn is_permutation(self) -> bool {
        self.first != self.second && self.first != self.third && self.second != self.third
    }

    /// The stroke comes first of all, or second after the markers.
    pub open spec fn stroke_leads(self) -> bool {
        self.first == PaintOrderKind::Stroke || (self.first == PaintOrderKind::Markers
            && self.second == PaintOrderKind::Stroke)
    }

    /// The stroke is painted before the fill. In an order that holds each
    /// kind once this is so exactly when the stroke comes first of all, or
    /// second after the markers.
    pub fn stroke_before_fill(self) -> (b: bool)
        ensures
            b == self.stroke_leads(),
    {
        match (self.first, self.second) {
            (PaintOrderKind::Stroke, _) => true,
            (PaintOrderKind::Markers, PaintOrderKind::Stroke) => true,
            _ => false,
        }
    }
}

/// One entry of a span's stack of baseline shifts.
#[derive(Clone, Copy, Debug, PartialEq, Eq, Structural)]
pub enum BaselineShift {
    Baseline,
    Subscript,
    Superscript,
    Number(Number),
}

/// How one kind of decoration line is painted.
#[derive(Clone, Copy, Debug, PartialEq, Eq, Structural)]
pub struct TextDecorationStyle {
    pub fill: Option<Fill>,
    pub stroke: Option<Stroke>,
}

/// The decoration lines of a span, each present or absent on its own.
#[derive(Clone, Copy, Debug, PartialEq, Eq, Structural)]
pub struct TextDecoration {
    pub underline: Option<TextDecorationStyle>,
    pub overline: Option<TextDecorationStyle>,
    pub line_through: Option<TextDecorationStyle>,
}

/// Where the characters of a chunk are laid out.
#[derive(Clone, Copy, Debug, PartialEq, Eq, Structural)]
pub enum TextFlow {
    Linear,
    Path(TextPath),
}

/// What the source says about where one character goes.
#[derive(Clone, Copy, Debug, PartialEq, Eq, Structural)]
pub struct CharacterPosition {
    pub x: Option<Number>,
    pub y: Option<Number>,
    pub dx: Option<Number>,
    pub dy: Option<Number>,
}

impl CharacterPosition {
    /// Nothing is said about the character.
    pub open spec fn unset() -> CharacterPosition {
        CharacterPosition { x: None, y: None, dx: None, dy: None }
    }
}

/// A font request.
#[derive(Debug, PartialEq, Eq)]
pub struct Font {
    pub families: Vec<String>,
    pub style: FontStyle,
    pub stretch: FontStretch,
    pub weight: u16,
}

/// Mathematical model of a [`Font`].
pub struct FontView {
    pub families: Seq<Seq<char>>,
    pub style: FontStyle,
    pub stretch: FontStretch,
    pub weight: int,
}

/// The models of a run of strings.
pub open spec fn strings_view(list: Seq<String>) -> Seq<Seq<char>> {
    Seq::new(list.len(), |i: int| list[i]@)
}

impl View for Font {
    type V = FontView;

    open spec fn view(&self) -> FontView {
        FontView {
            families: strings_view(self.families@),
            style: self.style,
            stretch: self.stretch,
            weight: self.weight as int,
        }
    }
}

/// A run of characters of one chunk that share one style: the bytes
/// `[start, end)` of the chunk's text.
#[derive(Debug)]
pub struct TextSpan {
    pub start: usize,
    pub end: usize,
    pub fill: Option<Fill>,
    pub stroke: Option<Stroke>,
    pub paint_order: PaintOrder,
    pub font: Font,
    pub font_size: Number,
    pub small_caps: bool,
    pub apply_kerning: bool,
    pub decoration: TextDecoration,
    pub visibility: Visibility,
    pub dominant_baseline: DominantBaseline,
    pub alignment_baseline: AlignmentBaseline,
    pub baseline_shift: Vec<BaselineShift>,
    pub letter_spacing: Number,
    pub word_spacing: Number,
    pub text_length: Option<Number>,
    pub length_adjust: LengthAdjust,
    pub title: Option<String>,
}

/// Mathematical model of a [`TextSpan`].
pub struct SpanView {
    pub start: int,
    pub end: int,
    pub fill: Option<Fill>,
    pub stroke: Option<Stroke>,
    pub paint_order: PaintOrder,
    pub font: FontView,
    pub font_size: Number,
    pub small_caps: bool,
    pub apply_kerning: bool,
    pub decoration: TextDecoration,
    pub visibility: Visibility,
    pub dominant_baseline: DominantBaseline,
    pub alignment_baseline: AlignmentBaseline,
    pub baseline_shift: Seq<BaselineShift>,
    pub letter_spacing: Number,
    pub word_spacing: Number,
    pub text_length: Option<Number>,
    pub length_adjust: LengthAdjust,
    pub title: Option<Seq<char>>,
}

impl SpanView {
    /// The same style over other bytes.
    pub open spec fn at(self, start: int, end: int) -> SpanView {
        SpanView { start, end, ..self }
    }
}

impl View for TextSpan {
    type V = SpanView;

    open spec fn view(&self) -> SpanView {
        SpanView {
            start: self.start as int,
            end: self.end as int,
            fill: self.fill,
            stroke: self.stroke,
            paint_order: self.paint_order,
            font: self.font@,
            font_size: self.font_size,
            small_caps: self.small_caps,
            apply_kerning: self.apply_kerning,
            decoration: self.decoration,
            visibility: self.visibility,
            dominant_baseline: self.dominant_baseline,
            alignment_baseline: self.alignment_baseline,
            baseline_shift: self.baseline_shift@,
            letter_spacing: self.letter_spacing,
            word_spacing: self.word_spacing,
            text_length: self.text_length,
            length_adjust: self.length_adjust,
            title: crate::svgtree::string_view(self.title),
        }
    }
}

/// The models of a run of spans.
pub open spec fn spans_view(spans: Seq<TextSpan>) -> Seq<SpanView> {
    Seq::new(spans.len(), |i: int| spans[i]@)
}

/// A run of characters positioned as a whole and laid out in one flow.
#[derive(Debug)]
pub struct TextChunk {
    pub x: Option<Number>,
    pub y: Option<Number>,
    pub anchor: TextAnchor,
    pub spans: Vec<TextSpan>,
    pub text_flow: TextFlow,
    pub text: String,
}

/// Mathematical model of a [`TextChunk`].
pub struct ChunkView {
    pub x: Option<Number>,
    pub y: Option<Number>,
    pub anchor: TextAnchor,
    pub spans: Seq<SpanView>,
    pub text_flow: TextFlow,
    pub text: Seq<char>,
}

impl View for TextChunk {
    type V = ChunkView;

    open spec fn view(&self) -> ChunkView {
        ChunkView {
            x: self.x,
            y: self.y,
            anchor: self.anchor,
            spans: spans_view(self.spans@),
            text_flow: self.text_flow,
            text: self.text@,
        }
    }
}

/// The models of a run of chunks.
pub open spec fn chunks_view(chunks: Seq<TextChunk>) -> Seq<ChunkView> {
    Seq::new(chunks.len(), |i: int| chunks[i]@)
}

/// A lowered `text` element.
#[derive(Debug)]
pub struct Text {
    pub id: String,
    pub rendering_mode: TextRendering,
    pub positions: Vec<CharacterPosition>,
    pub rotate: Vec<Number>,
    pub writing_mode: WritingMode,
    pub chunks: Vec<TextChunk>,
    pub title: Option<String>,
}

/// Mathematical model of a [`Text`].
pub struct TextView {
    pub id: Seq<char>,
    pub rendering_mode: TextRendering,
    pub positions: Seq<CharacterPosition>,
    pub rotate: Seq<Number>,
    pub writing_mode: WritingMode,
    pub chunks: Seq<ChunkView>,
    pub title: Option<Seq<char>>,
}

impl View for Text {
    type V = TextView;

    open spec fn view(&self) -> TextView {
        TextView {
            id: self.id@,
            rendering_mode: self.rendering_mode,
            positions: self.positions@,
            rotate: self.rotate@,
            writing_mode: self.writing_mode,
            chunks: chunks_view(self.chunks@),
            title: crate::svgtree::string_view(self.title),
        }
    }
}


/// The rendering hint of node `i`: what the nearest `text-rendering` at or
/// above it stands for, or `default` where there is none or it cannot be
/// read.
pub open spec fn rendering_mode_of(d: DocView, i: int, default: TextRendering) -> TextRendering {
    match d.find_attribute(i, AId::TextRendering) {
        Some(v) => match TextRendering::parsed(v) {
            Some(r) => r,
            None => default,
        },
        None => default,
    }
}

/// The `id` of element `i`, empty where it has none.
pub open spec fn element_id(d: DocView, i: int) -> Seq<char> {
    match d.attribute(i, AId::Id) {
        Some(v) => v,
        None => Seq::empty(),
    }
}

/// What the collection of chunks reads when the text element `t` is
/// lowered: the positions are those resolved for `t`.
pub open spec fn lowering_env(d: DocView, t: int, family: Seq<char>) -> Env {
    Env { d, pos: positions_of(d, t), text_node: t, family }
}

/// The text element `t`, lowered. `in_marker` says that the element is
/// rendered as part of a marker; it then carries no `id`.
pub open spec fn lowered(
    d: DocView,
    t: int,
    in_marker: bool,
    default_rendering: TextRendering,
    family: Seq<char>,
) -> TextView {
    TextView {
        id: if in_marker {
            Seq::empty()
        } else {
            element_id(d, t)
        },
        rendering_mode: rendering_mode_of(d, t, default_rendering),
        positions: positions_of(d, t),
        rotate: rotate_of(d, t),
        writing_mode: writing_mode_of(d.find_attribute(t, AId::WritingMode)),
        chunks: walk_of(lowering_env(d, t, family)).chunks,
        title: d.nodes[t].title,
    }
}

/// Lowers the closed text element `text_node` and appends the result to
/// `parent`.
///
/// There is one position and one angle for each character of the element;
/// each character is in a chunk or was dropped; every chunk is tiled by
/// its spans; and every span has a font size above zero.
pub fn convert(doc: &Document, text_node: NodeId, state: &State, parent: &mut Vec<Text>)
    requires
        doc.wf(),
        doc@.closed(text_node as int),
        doc@.nodes[text_node as int].kind == NodeKind::Element,
    ensures
        final(parent)@.len() == old(parent)@.len() + 1,
        final(parent)@.drop_last() == old(parent)@,
        final(parent)@.last()@ == lowered(
            doc@,
            text_node as int,
            state.parent_markers@.len() > 0,
            state.opt.text_rendering,
            state.opt.font_family@,
        ),
        final(parent)@.last()@.positions.len() == doc@.count_chars(text_node as int),
        final(parent)@.last()@.rotate.len() == doc@.count_chars(text_node as int),
        emitted(final(parent)@.last()@.chunks) + walk_of(
            lowering_env(doc@, text_node as int, state.opt.font_family@),
        ).dropped == doc@.count_chars(text_node as int),
        forall|i: int|
            0 <= i < final(parent)@.last()@.chunks.len() ==> tiled(
                #[trigger] final(parent)@.last()@.chunks[i],
            ),
        forall|i: int|
            0 <= i < final(parent)@.last()@.chunks.len() ==> sized(
                #[trigger] final(parent)@.last()@.chunks[i],
            ),
{
    let pos_list = resolve_positions_list(doc, text_node);
    let rotate_list = resolve_rotate_list(doc, text_node);
    let writing_mode = convert_writing_mode(doc, text_node);
    let chunks = collect_text_chunks(doc, text_node, &pos_list, state);
    let rendering_mode = match doc.find_attribute(text_node, AId::TextRendering) {
        Some(v) => match TextRendering::parse(v) {
            Some(r) => r,
            None => state.opt.text_rendering,
        },
        None => state.opt.text_rendering,
    };
    let title = match doc.title(text_node) {
        Some(t) => Some(t.to_owned()),
        None => None,
    };
    // What a marker draws must carry no id, or the id would occur twice.
    let id = if state.parent_markers.len() == 0 {
        match doc.attribute(text_node, AId::Id) {
            Some(v) => v.to_owned(),
            None => String::new(),
        }
    } else {
        String::new()
    };
    proof {
        assert(env_of(doc, &pos_list, text_node, state) == lowering_env(
            doc@,
            text_node as int,
            state.opt.font_family@,
        ));
    }
    let text = Text {
        id,
        rendering_mode,
        positions: pos_list,
        rotate: rotate_list,
        writing_mode,
        chunks,
        title,
    };
    let ghost before = parent@;
    parent.push(text);
    proof {
        assert(parent@.drop_last() =~= before);
    }
}

} // verus!
