use vstd::prelude::*;

verus! {

/// `str::eq`: two string slices are equal exactly when they hold the same
/// characters in the same order.
#[verifier::external_body]
pub(crate) fn same_text(a: &str, b: &str) -> (r: bool)
    ensures
        r == (a@ == b@),
{
    a == b
}

/// Elements that the tree keeps.
#[derive(Clone, Copy, Debug, PartialEq, Eq, Structural)]
pub enum EId {
    A,
    Circle,
    ClipPath,
    Defs,
    Ellipse,
    G,
    Image,
    Line,
    LinearGradient,
    Marker,
    Mask,
    Path,
    Pattern,
    Polygon,
    Polyline,
    RadialGradient,
    Rect,
    Stop,
    Style,
    Svg,
    Switch,
    Symbol,
    Text,
    TextPath,
    Title,
    Tref,
    Tspan,
    Use,
}

/// Attributes that the tree keeps.
#[derive(Clone, Copy, Debug, PartialEq, Eq, Structural)]
pub enum AId {
    AlignmentBaseline,
    BaselineShift,
    D,
    Display,
    DominantBaseline,
    Dx,
    Dy,
    Fill,
    FontFamily,
    FontKerning,
    FontSize,
    FontStretch,
    FontStyle,
    FontVariant,
    FontWeight,
    Height,
    Href,
    Id,
    Kerning,
    LengthAdjust,
    LetterSpacing,
    PaintOrder,
    Rotate,
    StartOffset,
    Stroke,
    TextAnchor,
    TextDecoration,
    TextLength,
    TextRendering,
    Transform,
    ViewBox,
    Visibility,
    Width,
    WordSpacing,
    WritingMode,
    X,
    Y,
}

/// The element that a tag name stands for, if the tree keeps such elements.
pub open spec fn element_of(name: Seq<char>) -> Option<EId> {
    if name == "a"@ {
        Some(EId::A)
    } else if name == "circle"@ {
        Some(EId::Circle)
    } else if name == "clipPath"@ {
        Some(EId::ClipPath)
    } else if name == "defs"@ {
        Some(EId::Defs)
    } else if name == "ellipse"@ {
        Some(EId::Ellipse)
    } else if name == "g"@ {
        Some(EId::G)
    } else if name == "image"@ {
        Some(EId::Image)
    } else if name == "line"@ {
        Some(EId::Line)
    } else if name == "linearGradient"@ {
        Some(EId::LinearGradient)
    } else if name == "marker"@ {
        Some(EId::Marker)
    } else if name == "mask"@ {
        Some(EId::Mask)
    } else if name == "path"@ {
        Some(EId::Path)
    } else if name == "pattern"@ {
        Some(EId::Pattern)
    } else if name == "polygon"@ {
        Some(EId::Polygon)
    } else if name == "polyline"@ {
        Some(EId::Polyline)
    } else if name == "radialGradient"@ {
        Some(EId::RadialGradient)
    } else if name == "rect"@ {
        Some(EId::Rect)
    } else if name == "stop"@ {
        Some(EId::Stop)
    } else if name == "style"@ {
        Some(EId::Style)
    } else if name == "svg"@ {
        Some(EId::Svg)
    } else if name == "switch"@ {
        Some(EId::Switch)
    } else if name == "symbol"@ {
        Some(EId::Symbol)
    } else if name == "text"@ {
        Some(EId::Text)
    } else if name == "textPath"@ {
        Some(EId::TextPath)
    } else if name == "title"@ {
        Some(EId::Title)
    } else if name == "tref"@ {
        Some(EId::Tref)
    } else if name == "tspan"@ {
        Some(EId::Tspan)
    } else if name == "use"@ {
        Some(EId::Use)
    } else {
        None
    }
}

/// The attribute that a name stands for, if the tree keeps such attributes.
pub open spec fn attribute_of(name: Seq<char>) -> Option<AId> {
    if name == "alignment-baseline"@ {
        Some(AId::AlignmentBaseline)
    } else if name == "baseline-shift"@ {
        Some(AId::BaselineShift)
    } else if name == "d"@ {
        Some(AId::D)
    } else if name == "display"@ {
        Some(AId::Display)
    } else if name == "dominant-baseline"@ {
        Some(AId::DominantBaseline)
    } else if name == "dx"@ {
        Some(AId::Dx)
    } else if name == "dy"@ {
        Some(AId::Dy)
    } else if name == "fill"@ {
        Some(AId::Fill)
    } else if name == "font-family"@ {
        Some(AId::FontFamily)
    } else if name == "font-kerning"@ {
        Some(AId::FontKerning)
    } else if name == "font-size"@ {
        Some(AId::FontSize)
    } else if name == "font-stretch"@ {
        Some(AId::FontStretch)
    } else if name == "font-style"@ {
        Some(AId::FontStyle)
    } else if name == "font-variant"@ {
        Some(AId::FontVariant)
    } else if name == "font-weight"@ {
        Some(AId::FontWeight)
    } else if name == "height"@ {
        Some(AId::Height)
    } else if name == "href"@ {
        Some(AId::Href)
    } else if name == "id"@ {
        Some(AId::Id)
    } else if name == "kerning"@ {
        Some(AId::Kerning)
    } else if name == "lengthAdjust"@ {
        Some(AId::LengthAdjust)
    } else if name == "letter-spacing"@ {
        Some(AId::LetterSpacing)
    } else if name == "paint-order"@ {
        Some(AId::PaintOrder)
    } else if name == "rotate"@ {
        Some(AId::Rotate)
    } else if name == "startOffset"@ {
        Some(AId::StartOffset)
    } else if name == "stroke"@ {
        Some(AId::Stroke)
    } else if name == "text-anchor"@ {
        Some(AId::TextAnchor)
    } else if name == "text-decoration"@ {
        Some(AId::TextDecoration)
    } else if name == "textLength"@ {
        Some(AId::TextLength)
    } else if name == "text-rendering"@ {
        Some(AId::TextRendering)
    } else if name == "transform"@ {
        Some(AId::Transform)
    } else if name == "viewBox"@ {
        Some(AId::ViewBox)
    } else if name == "visibility"@ {
        Some(AId::Visibility)
    } else if name == "width"@ {
        Some(AId::Width)
    } else if name == "word-spacing"@ {
        Some(AId::WordSpacing)
    } else if name == "writing-mode"@ {
        Some(AId::WritingMode)
    } else if name == "x"@ {
        Some(AId::X)
    } else if name == "y"@ {
        Some(AId::Y)
    } else {
        None
    }
}

impl EId {
    /// Looks a tag name up; an unknown name gives `None`.
    pub fn from_name(name: &str) -> (id: Option<EId>)
        ensures
            id == element_of(name@),
    {
        if same_text(name, "a") {
            Some(EId::A)
        } else if same_text(name, "circle") {
            Some(EId::Circle)
        } else if same_text(name, "clipPath") {
            Some(EId::ClipPath)
        } else if same_text(name, "defs") {
            Some(EId::Defs)
        } else if same_text(name, "ellipse") {
            Some(EId::Ellipse)
        } else if same_text(name, "g") {
            Some(EId::G)
        } else if same_text(name, "image") {
            Some(EId::Image)
        } else if same_text(name, "line") {
            Some(EId::Line)
        } else if same_text(name, "linearGradient") {
            Some(EId::LinearGradient)
        } else if same_text(name, "marker") {
            Some(EId::Marker)
        } else if same_text(name, "mask") {
            Some(EId::Mask)
        } else if same_text(name, "path") {
            Some(EId::Path)
        } else if same_text(name, "pattern") {
            Some(EId::Pattern)
        } else if same_text(name, "polygon") {
            Some(EId::Polygon)
        } else if same_text(name, "polyline") {
            Some(EId::Polyline)
        } else if same_text(name, "radialGradient") {
            Some(EId::RadialGradient)
        } else if same_text(name, "rect") {
            Some(EId::Rect)
        } else if same_text(name, "stop") {
            Some(EId::Stop)
        } else if same_text(name, "style") {
            Some(EId::Style)
        } else if same_text(name, "svg") {
            Some(EId::Svg)
        } else if same_text(name, "switch") {
            Some(EId::Switch)
        } else if same_text(name, "symbol") {
            Some(EId::Symbol)
        } else if same_text(name, "text") {
            Some(EId::Text)
        } else if same_text(name, "textPath") {
            Some(EId::TextPath)
        } else if same_text(name, "title") {
            Some(EId::Title)
        } else if same_text(name, "tref") {
            Some(EId::Tref)
        } else if same_text(name, "tspan") {
            Some(EId::Tspan)
        } else if same_text(name, "use") {
            Some(EId::Use)
        } else {
            None
        }
    }
}

impl AId {
    /// Looks an attribute name up; an unknown name gives `None`.
    pub fn from_name(name: &str) -> (id: Option<AId>)
        ensures
            id == attribute_of(name@),
    {
        if same_text(name, "alignment-baseline") {
            Some(AId::AlignmentBaseline)
        } else if same_text(name, "baseline-shift") {
            Some(AId::BaselineShift)
        } else if same_text(name, "d") {
            Some(AId::D)
        } else if same_text(name, "display") {
            Some(AId::Display)
        } else if same_text(name, "dominant-baseline") {
            Some(AId::DominantBaseline)
        } else if same_text(name, "dx") {
            Some(AId::Dx)
        } else if same_text(name, "dy") {
            Some(AId::Dy)
        } else if same_text(name, "fill") {
            Some(AId::Fill)
        } else if same_text(name, "font-family") {
            Some(AId::FontFamily)
        } else if same_text(name, "font-kerning") {
            Some(AId::FontKerning)
        } else if same_text(name, "font-size") {
            Some(AId::FontSize)
        } else if same_text(name, "font-stretch") {
            Some(AId::FontStretch)
        } else if same_text(name, "font-style") {
            Some(AId::FontStyle)
        } else if same_text(name, "font-variant") {
            Some(AId::FontVariant)
        } else if same_text(name, "font-weight") {
            Some(AId::FontWeight)
        } else if same_text(name, "height") {
            Some(AId::Height)
        } else if same_text(name, "href") {
            Some(AId::Href)
        } else if same_text(name, "id") {
            Some(AId::Id)
        } else if same_text(name, "kerning") {
            Some(AId::Kerning)
        } else if same_text(name, "lengthAdjust") {
            Some(AId::LengthAdjust)
        } else if same_text(name, "letter-spacing") {
            Some(AId::LetterSpacing)
        } else if same_text(name, "paint-order") {
            Some(AId::PaintOrder)
        } else if same_text(name, "rotate") {
            Some(AId::Rotate)
        } else if same_text(name, "startOffset") {
            Some(AId::StartOffset)
        } else if same_text(name, "stroke") {
            Some(AId::Stroke)
        } else if same_text(name, "text-anchor") {
            Some(AId::TextAnchor)
        } else if same_text(name, "text-decoration") {
            Some(AId::TextDecoration)
        } else if same_text(name, "textLength") {
            Some(AId::TextLength)
        } else if same_text(name, "text-rendering") {
            Some(AId::TextRendering)
        } else if same_text(name, "transform") {
            Some(AId::Transform)
        } else if same_text(name, "viewBox") {
            Some(AId::ViewBox)
        } else if same_text(name, "visibility") {
            Some(AId::Visibility)
        } else if same_text(name, "width") {
            Some(AId::Width)
        } else if same_text(name, "word-spacing") {
            Some(AId::WordSpacing)
        } else if same_text(name, "writing-mode") {
            Some(AId::WritingMode)
        } else if same_text(name, "x") {
            Some(AId::X)
        } else if same_text(name, "y") {
            Some(AId::Y)
        } else {
            None
        }
    }
}

} // verus!
