use vstd::prelude::*;
use crate::names::EId;
use crate::number::Number;
use crate::svgtree::{
    lemma_chars_in_split, list_view, DocView, Document, NodeId, NodeKind,
};
use crate::text::CharacterPosition;

verus! {

/// One of the four things that can be said about where a character goes.
#[derive(Clone, Copy, Debug, PartialEq, Eq, Structural)]
pub enum Axis {
    X,
    Y,
    Dx,
    Dy,
}

/// `p` with `v` on one axis.
pub open spec fn with_axis(p: CharacterPosition, axis: Axis, v: Number) -> CharacterPosition {
    match axis {
        Axis::X => CharacterPosition { x: Some(v), ..p },
        Axis::Y => CharacterPosition { y: Some(v), ..p },
        Axis::Dx => CharacterPosition { dx: Some(v), ..p },
        Axis::Dy => CharacterPosition { dy: Some(v), ..p },
    }
}

/// How many of `len` values an element of `count` characters uses.
pub open spec fn covered(len: int, count: int) -> int {
    if len < count {
        len
    } else {
        count
    }
}

/// `list` after an element that starts at character `offset` and holds
/// `count` characters wrote its `values` on one axis: value `i` goes to
/// character `offset + i`, and values beyond the element's characters are
/// left out.
pub open spec fn apply_list(
    list: Seq<CharacterPosition>,
    offset: int,
    values: Option<Seq<Number>>,
    count: int,
    axis: Axis,
) -> Seq<CharacterPosition> {
    match values {
        None => list,
        Some(v) => Seq::new(
            list.len(),
            |i: int|
                if offset <= i < offset + covered(v.len() as int, count) {
                    with_axis(list[i], axis, v[i - offset])
                } else {
                    list[i]
                },
        ),
    }
}

/// Node `j` is an element that positions characters: a `text` or a `tspan`.
pub open spec fn positions_element(d: DocView, j: int) -> bool {
    d.nodes[j].kind == NodeKind::Element && (d.nodes[j].tag == Some(EId::Text) || d.nodes[j].tag
        == Some(EId::Tspan))
}

/// `list` after node `j` of the text element `t` wrote its four lists.
pub open spec fn apply_node(list: Seq<CharacterPosition>, d: DocView, t: int, j: int) -> Seq<
    CharacterPosition,
> {
    if positions_element(d, j) {
        let offset = d.chars_in(t, j) as int;
        let count = d.count_chars(j) as int;
        let r = d.nodes[j].resolved;
        apply_list(
            apply_list(
                apply_list(apply_list(list, offset, r.x, count, Axis::X), offset, r.y, count, Axis::Y),
                offset,
                r.dx,
                count,
                Axis::Dx,
            ),
            offset,
            r.dy,
            count,
            Axis::Dy,
        )
    } else {
        list
    }
}

/// The positions of the characters of text element `t` after the nodes
/// before `j` wrote theirs, in document order: later writes win.
pub open spec fn positions_upto(d: DocView, t: int, j: int) -> Seq<CharacterPosition>
    decreases j - t,
{
    if j <= t {
        Seq::new(d.count_chars(t), |i: int| CharacterPosition::unset())
    } else {
        apply_node(positions_upto(d, t, j - 1), d, t, j - 1)
    }
}

/// The positions of the characters of text element `t`.
pub open spec fn positions_of(d: DocView, t: int) -> Seq<CharacterPosition> {
    positions_upto(d, t, d.nodes[t].end)
}

/// There is one position for each character.
pub proof fn lemma_positions_len(d: DocView, t: int, j: int)
    ensures
        positions_upto(d, t, j).len() == d.count_chars(t),
    decreases j - t,
{
    if j > t {
        lemma_positions_len(d, t, j - 1);
    }
}

/// The characters of a node inside a closed element lie among the
/// element's characters.
pub proof fn lemma_inner_chars(d: DocView, t: int, j: int)
    requires
        d.wf(),
        d.closed(t),
        t <= j < d.nodes[t].end,
    ensures
        d.closed(j),
        j < d.nodes[j].end <= d.nodes[t].end,
        d.chars_in(t, j) + d.count_chars(j) + d.chars_in(d.nodes[j].end, d.nodes[t].end)
            == d.count_chars(t),
        4 * d.count_chars(t) <= usize::MAX,
{
    assert(d.node_wf(t));
    assert(d.node_wf(j));
    if t < j {
        assert(0 < d.nodes[j].end <= d.nodes[t].end);
    }
    lemma_chars_in_split(d, t, j, d.nodes[j].end);
    lemma_chars_in_split(d, t, d.nodes[j].end, d.nodes[t].end);
    lemma_chars_in_split(d, 0, t, d.nodes[t].end);
    lemma_chars_in_split(d, 0, d.nodes[t].end, d.len());
}

/// Writes the values of one axis of one element into `list`.
fn push_list(
    list: &mut Vec<CharacterPosition>,
    offset: usize,
    values: &Option<Vec<Number>>,
    count: usize,
    axis: Axis,
)
    requires
        offset + count <= old(list)@.len(),
    ensures
        final(list)@ == apply_list(old(list)@, offset as int, list_view(*values), count as int, axis),
{
    match values {
        None => {},
        Some(v) => {
            let len = if v.len() < count {
                v.len()
            } else {
                count
            };
            let mut i: usize = 0;
            let size = list.len();
            while i < len
                invariant
                    i <= len,
                    size == list@.len(),
                    len == covered(v@.len() as int, count as int),
                    offset + count <= list@.len(),
                    list@.len() == old(list)@.len(),
                    forall|k: int|
                        0 <= k < list@.len() ==> #[trigger] list@[k] == if offset <= k < offset + i {
                            with_axis(old(list)@[k], axis, v@[k - offset])
                        } else {
                            old(list)@[k]
                        },
                decreases len - i,
            {
                let mut p = list[offset + i];
                match axis {
                    Axis::X => {
                        p.x = Some(v[i]);
                    },
                    Axis::Y => {
                        p.y = Some(v[i]);
                    },
                    Axis::Dx => {
                        p.dx = Some(v[i]);
                    },
                    Axis::Dy => {
                        p.dy = Some(v[i]);
                    },
                }
                list[offset + i] = p;
                i = i + 1;
            }
            proof {
                assert(list@ =~= apply_list(
                    old(list)@,
                    offset as int,
                    list_view(*values),
                    count as int,
                    axis,
                ));
            }
        },
    }
}

/// The positions of the characters of the closed text element `text_node`:
/// one entry for each character, unset unless a `text` or `tspan` at or
/// below `text_node` says otherwise.
#[verifier::rlimit(40)]
pub fn resolve_positions_list(doc: &Document, text_node: NodeId) -> (list: Vec<CharacterPosition>)
    requires
        doc.wf(),
        doc@.closed(text_node as int),
    ensures
        list@ == positions_of(doc@, text_node as int),
        list@.len() == doc@.count_chars(text_node as int),
{
    let total_chars = doc.count_chars(text_node);
    let unset = CharacterPosition { x: None, y: None, dx: None, dy: None };
    let mut list: Vec<CharacterPosition> = Vec::new();
    let mut n: usize = 0;
    while n < total_chars
        invariant
            n <= total_chars,
            list@.len() == n,
            forall|k: int| 0 <= k < n ==> #[trigger] list@[k] == CharacterPosition::unset(),
            unset == CharacterPosition::unset(),
        decreases total_chars - n,
    {
        list.push(unset);
        n = n + 1;
    }
    let end = doc.subtree_end(text_node);
    proof {
        assert(list@ =~= positions_upto(doc@, text_node as int, text_node as int));
        assert(doc@.node_wf(text_node as int));
        assert(doc@.chars_in(text_node as int, text_node as int) == 0);
    }
    let mut offset: usize = 0;
    let mut j = text_node;
    while j < end
        invariant
            doc.wf(),
            doc@.closed(text_node as int),
            end == doc@.nodes[text_node as int].end,
            text_node <= j <= end <= doc@.len(),
            offset == doc@.chars_in(text_node as int, j as int),
            list@ == positions_upto(doc@, text_node as int, j as int),
            list@.len() == doc@.count_chars(text_node as int),
        decreases end - j,
    {
        proof {
            lemma_inner_chars(doc@, text_node as int, j as int);
            lemma_positions_len(doc@, text_node as int, j as int + 1);
        }
        match doc.kind(j) {
            NodeKind::Element => {
                let positions = match doc.tag_name(j) {
                    Some(EId::Text) => true,
                    Some(EId::Tspan) => true,
                    _ => false,
                };
                if positions {
                    let child_chars = doc.count_chars(j);
                    let r = doc.resolved(j);
                    push_list(&mut list, offset, &r.x, child_chars, Axis::X);
                    push_list(&mut list, offset, &r.y, child_chars, Axis::Y);
                    push_list(&mut list, offset, &r.dx, child_chars, Axis::Dx);
                    push_list(&mut list, offset, &r.dy, child_chars, Axis::Dy);
                }
                proof {
                    assert(doc@.node_wf(j as int));
                }
            },
            NodeKind::Text => {
                proof {
                    assert(doc@.node_wf(j as int));
                    assert(doc@.chars_in(j as int, j as int) == 0);
                    assert(doc@.count_chars(j as int) == doc@.nodes[j as int].text.len());
                }
                offset = offset + doc.text_len(j);
            },
            NodeKind::Root => {
                proof {
                    assert(doc@.node_wf(j as int));
                }
            },
        }
        j = j + 1;
    }
    list
}

/// `list` and the carried angle after an element that starts at character
/// `offset` and holds `count` characters wrote its `values`: value `i` goes
/// to character `offset + i`; where the values run out, every further
/// character of the element takes the last value, or the carried angle
/// where there is no value at all. The last value written is carried on.
pub open spec fn apply_rotate(
    list: Seq<Number>,
    last: Number,
    offset: int,
    values: Option<Seq<Number>>,
    count: int,
) -> (Seq<Number>, Number) {
    match values {
        None => (list, last),
        Some(v) => {
            let fill = if v.len() > 0 {
                v.last()
            } else {
                last
            };
            (
                Seq::new(
                    list.len(),
                    |k: int|
                        if offset <= k < offset + count {
                            if k - offset < v.len() {
                                v[k - offset]
                            } else {
                                fill
                            }
                        } else {
                            list[k]
                        },
                ),
                if count > 0 && v.len() > 0 {
                    v[covered(v.len() as int, count) - 1]
                } else {
                    last
                },
            )
        },
    }
}

/// The angles of the characters of text element `t`, and the carried angle,
/// after the elements before `j` wrote theirs, in document order.
pub open spec fn rotate_upto(d: DocView, t: int, j: int) -> (Seq<Number>, Number)
    decreases j - t,
{
    if j <= t {
        (Seq::new(d.count_chars(t), |i: int| Number { bits: 0 }), Number { bits: 0 })
    } else {
        let before = rotate_upto(d, t, j - 1);
        if d.nodes[j - 1].kind == NodeKind::Element {
            apply_rotate(
                before.0,
                before.1,
                d.chars_in(t, j - 1) as int,
                d.nodes[j - 1].resolved.rotate,
                d.count_chars(j - 1) as int,
            )
        } else {
            before
        }
    }
}

/// The angles of the characters of text element `t`.
pub open spec fn rotate_of(d: DocView, t: int) -> Seq<Number> {
    rotate_upto(d, t, d.nodes[t].end).0
}

/// There is one angle for each character.
pub proof fn lemma_rotate_len(d: DocView, t: int, j: int)
    ensures
        rotate_upto(d, t, j).0.len() == d.count_chars(t),
    decreases j - t,
{
    if j > t {
        lemma_rotate_len(d, t, j - 1);
    }
}

/// Rotation is carried on: where an element with `count` characters has a
/// list of `values.len() >= 1` angles, each of its characters from
/// `values.len()` on takes the last angle of the list.
pub proof fn lemma_rotate_carried(
    list: Seq<Number>,
    last: Number,
    offset: int,
    values: Seq<Number>,
    count: int,
    i: int,
)
    requires
        0 <= offset,
        offset + count <= list.len(),
        1 <= values.len() <= i < count,
    ensures
        apply_rotate(list, last, offset, Some(values), count).0[offset + i] == values[
            values.len() - 1],
{
}

/// Node `j` is an element with a list of angles.
pub open spec fn rotates(d: DocView, j: int) -> bool {
    d.nodes[j].kind == NodeKind::Element && d.nodes[j].resolved.rotate is Some
}

/// More nodes hold no fewer characters.
pub proof fn lemma_chars_in_grows(d: DocView, a: int, b: int, c: int)
    requires
        a <= b <= c,
    ensures
        d.chars_in(a, b) <= d.chars_in(a, c),
{
    lemma_chars_in_split(d, a, b, c);
}

/// Rotation is carried on, in the finished list: where an element `e` of
/// the text element `t` has a list of `L >= 1` angles and holds more than
/// `L` characters, and no element below `e` has a list of its own, each
/// character of `e` from its `L`-th on has the last angle of the list.
pub proof fn lemma_rotate_carried_to_the_end(d: DocView, t: int, e: int, i: int)
    requires
        d.wf(),
        d.closed(t),
        t <= e < d.nodes[t].end,
        rotates(d, e),
        forall|j: int| e < j < d.nodes[e].end ==> !rotates(d, j),
        1 <= d.nodes[e].resolved.rotate->0.len() <= i < d.count_chars(e),
    ensures
        rotate_of(d, t).len() == d.count_chars(t),
        d.chars_in(t, e) + i < d.count_chars(t),
        rotate_of(d, t)[d.chars_in(t, e) + i] == d.nodes[e].resolved.rotate->0.last(),
{
    lemma_inner_chars(d, t, e);
    lemma_rotate_len(d, t, d.nodes[t].end);
    lemma_rotate_len(d, t, e);
    lemma_rotate_kept(d, t, e, i, d.nodes[t].end);
}

#[verifier::rlimit(40)]
proof fn lemma_rotate_kept(d: DocView, t: int, e: int, i: int, j: int)
    requires
        d.wf(),
        d.closed(t),
        t <= e < d.nodes[t].end,
        rotates(d, e),
        forall|j: int| e < j < d.nodes[e].end ==> !rotates(d, j),
        1 <= d.nodes[e].resolved.rotate->0.len() <= i < d.count_chars(e),
        e < j <= d.nodes[t].end,
    ensures
        rotate_upto(d, t, j).0[d.chars_in(t, e) + i] == d.nodes[e].resolved.rotate->0.last(),
    decreases j,
{
    let at = d.chars_in(t, e) + i;
    lemma_inner_chars(d, t, e);
    lemma_rotate_len(d, t, j - 1);
    if j == e + 1 {
        lemma_rotate_len(d, t, e);
    } else {
        lemma_rotate_kept(d, t, e, i, j - 1);
        if rotates(d, j - 1) {
            // The node lies behind all of `e`, and so do its characters.
            assert(j - 1 >= d.nodes[e].end);
            lemma_chars_in_split(d, t, e, d.nodes[e].end);
            lemma_chars_in_grows(d, t, d.nodes[e].end, j - 1);
            assert(d.chars_in(t, j - 1) > at);
        }
    }
}

/// Writes the angles of one element into `list`, and returns the angle to
/// carry on.
fn push_rotate(
    list: &mut Vec<Number>,
    last: Number,
    offset: usize,
    values: &Option<Vec<Number>>,
    count: usize,
) -> (carried: Number)
    requires
        offset + count <= old(list)@.len(),
    ensures
        (final(list)@, carried) == apply_rotate(
            old(list)@,
            last,
            offset as int,
            list_view(*values),
            count as int,
        ),
{
    match values {
        None => last,
        Some(v) => {
            let mut carried = last;
            let mut i: usize = 0;
            let ghost fill = if v@.len() > 0 {
                v@.last()
            } else {
                last
            };
            let size = list.len();
            while i < count
                invariant
                    i <= count,
                    size == list@.len(),
                    offset + count <= list@.len(),
                    list@.len() == old(list)@.len(),
                    carried == if i > 0 && v@.len() > 0 {
                        v@[covered(v@.len() as int, i as int) - 1]
                    } else {
                        last
                    },
                    fill == if v@.len() > 0 {
                        v@.last()
                    } else {
                        last
                    },
                    forall|k: int|
                        0 <= k < list@.len() ==> #[trigger] list@[k] == if offset <= k < offset + i {
                            if k - offset < v@.len() {
                                v@[k - offset]
                            } else {
                                fill
                            }
                        } else {
                            old(list)@[k]
                        },
                decreases count - i,
            {
                if i < v.len() {
                    let a = v[i];
                    list[offset + i] = a;
                    carried = a;
                } else {
                    list[offset + i] = carried;
                }
                i = i + 1;
            }
            proof {
                assert(list@ =~= apply_rotate(
                    old(list)@,
                    last,
                    offset as int,
                    list_view(*values),
                    count as int,
                ).0);
            }
            carried
        },
    }
}

/// The angles of the characters of the closed text element `text_node`:
/// one entry for each character, zero unless an element at or below
/// `text_node` says otherwise.
#[verifier::rlimit(40)]
pub fn resolve_rotate_list(doc: &Document, text_node: NodeId) -> (list: Vec<Number>)
    requires
        doc.wf(),
        doc@.closed(text_node as int),
    ensures
        list@ == rotate_of(doc@, text_node as int),
        list@.len() == doc@.count_chars(text_node as int),
{
    let total_chars = doc.count_chars(text_node);
    let zero = Number { bits: 0 };
    let mut list: Vec<Number> = Vec::new();
    let mut n: usize = 0;
    while n < total_chars
        invariant
            n <= total_chars,
            list@.len() == n,
            forall|k: int| 0 <= k < n ==> #[trigger] list@[k] == zero,
            zero == (Number { bits: 0 }),
        decreases total_chars - n,
    {
        list.push(zero);
        n = n + 1;
    }
    let end = doc.subtree_end(text_node);
    proof {
        assert(list@ =~= rotate_upto(doc@, text_node as int, text_node as int).0);
        assert(doc@.node_wf(text_node as int));
        assert(doc@.chars_in(text_node as int, text_node as int) == 0);
    }
    let mut last = zero;
    let mut offset: usize = 0;
    let mut j = text_node;
    while j < end
        invariant
            doc.wf(),
            doc@.closed(text_node as int),
            end == doc@.nodes[text_node as int].end,
            text_node <= j <= end <= doc@.len(),
            offset == doc@.chars_in(text_node as int, j as int),
            (list@, last) == rotate_upto(doc@, text_node as int, j as int),
            list@.len() == doc@.count_chars(text_node as int),
        decreases end - j,
    {
        proof {
            lemma_inner_chars(doc@, text_node as int, j as int);
            lemma_rotate_len(doc@, text_node as int, j as int + 1);
        }
        match doc.kind(j) {
            NodeKind::Element => {
                let child_chars = doc.count_chars(j);
                last = push_rotate(&mut list, last, offset, &doc.resolved(j).rotate, child_chars);
                proof {
                    assert(doc@.node_wf(j as int));
                }
            },
            NodeKind::Text => {
                proof {
                    assert(doc@.node_wf(j as int));
                    assert(doc@.chars_in(j as int, j as int) == 0);
                    assert(doc@.count_chars(j as int) == doc@.nodes[j as int].text.len());
                }
                offset = offset + doc.text_len(j);
            },
            NodeKind::Root => {
                proof {
                    assert(doc@.node_wf(j as int));
                }
            },
        }
        j = j + 1;
    }
    list
}

} // verus!
