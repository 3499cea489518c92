use vstd::prelude::*;
use crate::error::Error;
use crate::names::EId;
use crate::number::Number;
use crate::options::Options;
use crate::svgtree::{DocView, Document, NodeId, NodeKind};
use crate::text::{convert, lowered, Text, TextRendering, TextView};

verus! {

/// What a lowering pass carries from element to element.
#[derive(Debug)]
pub struct State {
    pub opt: Options,
    /// The markers inside which the pass currently is, outermost first.
    pub parent_markers: Vec<NodeId>,
}

/// A length that is there and is zero or below.
pub open spec fn not_above_zero(length: Option<Number>) -> bool {
    match length {
        Some(n) => n.zero() || n.negative(),
        None => false,
    }
}

/// An image has no valid size: its width or its height is zero or below, or
/// it has neither a width, nor a height, nor a view box.
pub open spec fn invalid_size(
    width: Option<Number>,
    height: Option<Number>,
    has_view_box: bool,
) -> bool {
    not_above_zero(width) || not_above_zero(height) || (width is None && height is None
        && !has_view_box)
}

/// Refuses an image without a valid size, given the width and the height of
/// its outermost element in user space, where it has them, and whether it
/// has a view box.
pub fn check_size(width: Option<Number>, height: Option<Number>, has_view_box: bool) -> (r: Result<
    (),
    Error,
>)
    ensures
        r is Err <==> invalid_size(width, height, has_view_box),
        r matches Err(e) ==> e is InvalidSize,
{
    let width_bad = match width {
        Some(n) => n.is_zero() || n.is_negative(),
        None => false,
    };
    let height_bad = match height {
        Some(n) => n.is_zero() || n.is_negative(),
        None => false,
    };
    if width_bad || height_bad || (width.is_none() && height.is_none() && !has_view_box) {
        Err(Error::InvalidSize)
    } else {
        Ok(())
    }
}

/// Node `j` is a closed `text` element.
pub open spec fn is_text_root(d: DocView, j: int) -> bool {
    d.closed(j) && d.nodes[j].kind == NodeKind::Element && d.nodes[j].tag == Some(EId::Text)
}

/// The `text` elements at or after node `j`, lowered, in document order. A
/// `text` element inside another is part of the outer one and gives no text
/// of its own.
pub open spec fn texts_from(
    d: DocView,
    j: int,
    in_marker: bool,
    rendering: TextRendering,
    family: Seq<char>,
) -> Seq<TextView>
    decreases d.len() - j,
{
    if 0 <= j < d.len() {
        if is_text_root(d, j) && j < d.nodes[j].end <= d.len() {
            seq![lowered(d, j, in_marker, rendering, family)] + texts_from(
                d,
                d.nodes[j].end,
                in_marker,
                rendering,
                family,
            )
        } else {
            texts_from(d, j + 1, in_marker, rendering, family)
        }
    } else {
        Seq::empty()
    }
}

/// The models of a run of lowered texts.
pub open spec fn texts_view(texts: Seq<Text>) -> Seq<TextView> {
    Seq::new(texts.len(), |i: int| texts[i]@)
}

/// Lowers every closed `text` element of the document that is not inside
/// another, in document order.
pub fn convert_texts(doc: &Document, state: &State) -> (texts: Vec<Text>)
    requires
        doc.wf(),
    ensures
        texts_view(texts@) == texts_from(
            doc@,
            0,
            state.parent_markers@.len() > 0,
            state.opt.text_rendering,
            state.opt.font_family@,
        ),
{
    let ghost in_marker = state.parent_markers@.len() > 0;
    let ghost rendering = state.opt.text_rendering;
    let ghost family = state.opt.font_family@;
    let ghost all = texts_from(doc@, 0, in_marker, rendering, family);
    let mut texts: Vec<Text> = Vec::new();
    let mut j: usize = 0;
    proof {
        assert(texts_view(texts@) + all =~= all);
    }
    while j < doc.len()
        invariant
            doc.wf(),
            j <= doc@.len(),
            in_marker == (state.parent_markers@.len() > 0),
            rendering == state.opt.text_rendering,
            family == state.opt.font_family@,
            all == texts_view(texts@) + texts_from(doc@, j as int, in_marker, rendering, family),
        decreases doc@.len() - j,
    {
        let ghost before = texts_view(texts@);
        let ghost held = texts@;
        let is_text = doc.is_closed(j) && match doc.kind(j) {
            NodeKind::Element => match doc.tag_name(j) {
                Some(EId::Text) => true,
                _ => false,
            },
            _ => false,
        };
        if is_text {
            proof {
                assert(doc@.node_wf(j as int));
            }
            convert(doc, j, state, &mut texts);
            proof {
                let text = lowered(doc@, j as int, in_marker, rendering, family);
                let rest = texts_from(doc@, doc@.nodes[j as int].end, in_marker, rendering, family);
                assert(texts_view(texts@) =~= before + seq![text]) by {
                    assert(texts@.drop_last() == held);
                    assert(texts_view(texts@).drop_last() =~= texts_view(texts@.drop_last()));
                    assert(texts_view(texts@).last() == text);
                    assert(texts_view(texts@) =~= texts_view(texts@).drop_last().push(text));
                }
                assert(before + (seq![text] + rest) =~= (before + seq![text]) + rest);
            }
            j = doc.subtree_end(j);
        } else {
            j = j + 1;
        }
    }
    proof {
        assert(texts_view(texts@) + Seq::<TextView>::empty() =~= texts_view(texts@));
    }
    texts
}

} // verus!
