use vstd::prelude::*;
use crate::chars::{find_sep, next_sep, range_is};
use crate::names::AId;
use crate::svgtree::{chars_of, is_token, DocView, Document, NodeId};
use crate::text::{TextDecoration, TextDecorationStyle};

verus! {

/// One of the pieces of `s` between spaces, from index `from` on, spells
/// `token`.
pub open spec fn has_token(s: Seq<char>, token: Seq<char>, from: int) -> bool
    decreases s.len() - from,
{
    if 0 <= from <= s.len() {
        let e = next_sep(s, ' ', from);
        s.subrange(from, e) == token || (from <= e < s.len() && has_token(s, token, e + 1))
    } else {
        false
    }
}

/// Node `i` lists `token` in its own `text-decoration`.
pub open spec fn lists_decoration(d: DocView, i: int, token: Seq<char>) -> bool {
    match d.attribute(i, AId::TextDecoration) {
        Some(v) => has_token(v, token, 0),
        None => false,
    }
}

/// Node `i` or one of its ancestors lists `token` in its `text-decoration`.
pub open spec fn inherits_decoration(d: DocView, i: int, token: Seq<char>) -> bool
    decreases i,
{
    d.valid(i) && (lists_decoration(d, i, token) || (0 <= d.nodes[i].parent < i
        && inherits_decoration(d, d.nodes[i].parent, token)))
}

/// The `text-decoration` of node `i` is exactly `token`.
pub open spec fn declares_decoration(d: DocView, i: int, token: Seq<char>) -> bool {
    d.attribute(i, AId::TextDecoration) == Some(token)
}

/// The paints of node `i`, as a decoration uses them.
pub open spec fn style_of(d: DocView, i: int) -> TextDecorationStyle {
    TextDecorationStyle { fill: d.nodes[i].resolved.fill, stroke: d.nodes[i].resolved.stroke }
}

/// One decoration line of a span that belongs to element `tspan` inside the
/// text element `text_node`: painted as `tspan` where `tspan` declares it,
/// else as `text_node` where that one inherits it, else absent.
pub open spec fn decoration_line(
    d: DocView,
    text_node: int,
    tspan: int,
    token: Seq<char>,
) -> Option<TextDecorationStyle> {
    if declares_decoration(d, tspan, token) {
        Some(style_of(d, tspan))
    } else if inherits_decoration(d, text_node, token) {
        Some(style_of(d, text_node))
    } else {
        None
    }
}

/// The decoration of a span that belongs to element `tspan` inside the text
/// element `text_node`.
pub open spec fn decoration_of(d: DocView, text_node: int, tspan: int) -> TextDecoration {
    TextDecoration {
        underline: decoration_line(d, text_node, tspan, "underline"@),
        overline: decoration_line(d, text_node, tspan, "overline"@),
        line_through: decoration_line(d, text_node, tspan, "line-through"@),
    }
}

/// Which decoration lines something asks for.
#[derive(Clone, Copy, Debug)]
pub struct TextDecorationTypes {
    pub has_underline: bool,
    pub has_overline: bool,
    pub has_line_through: bool,
}

/// One of the pieces of `value` between spaces spells `token`.
pub fn contains_token(value: &str, token: &str) -> (b: bool)
    ensures
        b == has_token(value@, token@, 0),
{
    let chars = chars_of(value);
    let word = chars_of(token);
    let mut from: usize = 0;
    loop
        invariant_except_break
            from <= chars@.len(),
            has_token(chars@, word@, 0) == has_token(chars@, word@, from as int),
        invariant
            chars@ == value@,
            word@ == token@,
        ensures
            !has_token(chars@, word@, 0),
        decreases chars@.len() - from,
    {
        let e = find_sep(&chars, ' ', from);
        if range_is(&chars, from, e, &word) {
            return true;
        }
        if e >= chars.len() {
            break;
        }
        from = e + 1;
    }
    false
}

/// Node `node` or one of its ancestors lists `token` in its
/// `text-decoration`.
pub fn find_decoration(doc: &Document, node: NodeId, token: &str) -> (b: bool)
    requires
        doc@.valid(node as int),
    ensures
        b == inherits_decoration(doc@, node as int, token@),
{
    let chain = doc.ancestors(node);
    let mut k: usize = 0;
    while k < chain.len()
        invariant
            k <= chain@.len(),
            chain@.len() >= 1,
            forall|j: int| 0 <= j < chain@.len() ==> doc@.valid(#[trigger] chain@[j] as int),
            forall|j: int|
                0 <= j < chain@.len() - 1 ==> (#[trigger] chain@[j + 1])
                    == doc@.nodes[chain@[j] as int].parent && chain@[j + 1] < chain@[j],
            !(doc@.nodes[chain@.last() as int].parent < chain@.last()),
            k < chain@.len() ==> inherits_decoration(doc@, node as int, token@)
                == inherits_decoration(doc@, chain@[k as int] as int, token@),
            k == chain@.len() ==> !inherits_decoration(doc@, node as int, token@),
        decreases chain.len() - k,
    {
        let listed = match doc.attribute(chain[k], AId::TextDecoration) {
            Some(v) => contains_token(v, token),
            None => false,
        };
        if listed {
            return true;
        }
        proof {
            if k + 1 < chain@.len() {
                assert(chain@[k + 1] == doc@.nodes[chain@[k as int] as int].parent);
            }
        }
        k = k + 1;
    }
    false
}

/// The decoration lines that the text element `text_node` inherits.
pub fn conv_text_decoration(doc: &Document, text_node: NodeId) -> (r: TextDecorationTypes)
    requires
        doc@.valid(text_node as int),
    ensures
        r.has_underline == inherits_decoration(doc@, text_node as int, "underline"@),
        r.has_overline == inherits_decoration(doc@, text_node as int, "overline"@),
        r.has_line_through == inherits_decoration(doc@, text_node as int, "line-through"@),
{
    TextDecorationTypes {
        has_underline: find_decoration(doc, text_node, "underline"),
        has_overline: find_decoration(doc, text_node, "overline"),
        has_line_through: find_decoration(doc, text_node, "line-through"),
    }
}

/// The decoration line that element `tspan` itself declares.
pub fn conv_text_decoration2(doc: &Document, tspan: NodeId) -> (r: TextDecorationTypes)
    requires
        doc@.valid(tspan as int),
    ensures
        r.has_underline == declares_decoration(doc@, tspan as int, "underline"@),
        r.has_overline == declares_decoration(doc@, tspan as int, "overline"@),
        r.has_line_through == declares_decoration(doc@, tspan as int, "line-through"@),
{
    let s = doc.attribute(tspan, AId::TextDecoration);
    TextDecorationTypes {
        has_underline: is_token(s, "underline"),
        has_overline: is_token(s, "overline"),
        has_line_through: is_token(s, "line-through"),
    }
}

/// The style of one decoration line, given who asks for it.
fn gen_style(doc: &Document, text_node: NodeId, tspan: NodeId, in_tspan: bool, in_text: bool) -> (r:
    Option<TextDecorationStyle>)
    requires
        doc@.valid(text_node as int),
        doc@.valid(tspan as int),
    ensures
        r == if in_tspan {
            Some(style_of(doc@, tspan as int))
        } else if in_text {
            Some(style_of(doc@, text_node as int))
        } else {
            None
        },
{
    let n = if in_tspan {
        tspan
    } else if in_text {
        text_node
    } else {
        return None;
    };
    let resolved = doc.resolved(n);
    Some(TextDecorationStyle { fill: resolved.fill, stroke: resolved.stroke })
}

/// The decoration of a span that belongs to element `tspan` inside the text
/// element `text_node`. The two may be the same node.
pub fn resolve_decoration(doc: &Document, text_node: NodeId, tspan: NodeId) -> (r: TextDecoration)
    requires
        doc@.valid(text_node as int),
        doc@.valid(tspan as int),
    ensures
        r == decoration_of(doc@, text_node as int, tspan as int),
{
    let text_dec = conv_text_decoration(doc, text_node);
    let tspan_dec = conv_text_decoration2(doc, tspan);
    TextDecoration {
        underline: gen_style(
            doc,
            text_node,
            tspan,
            tspan_dec.has_underline,
            text_dec.has_underline,
        ),
        overline: gen_style(doc, text_node, tspan, tspan_dec.has_overline, text_dec.has_overline),
        line_through: gen_style(
            doc,
            text_node,
            tspan,
            tspan_dec.has_line_through,
            text_dec.has_line_through,
        ),
    }
}

} // verus!
