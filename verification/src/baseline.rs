use vstd::prelude::*;
use crate::names::{same_text, AId, EId};
use crate::svgtree::{DocView, Document, NodeId};
use crate::text::BaselineShift;

verus! {

/// What node `i` adds to a stack of baseline shifts: nothing without a
/// `baseline-shift`; the resolved number where the attribute is a length or
/// a percentage; else what its keyword stands for.
pub open spec fn shift_entry(d: DocView, i: int) -> Option<BaselineShift> {
    match d.attribute(i, AId::BaselineShift) {
        None => None,
        Some(s) => Some(
            match d.nodes[i].resolved.baseline_shift {
                Some(n) => BaselineShift::Number(n),
                None => if s == "sub"@ {
                    BaselineShift::Subscript
                } else if s == "super"@ {
                    BaselineShift::Superscript
                } else {
                    BaselineShift::Baseline
                },
            },
        ),
    }
}

/// The node is a `text` element.
pub open spec fn is_text_element(d: DocView, i: int) -> bool {
    d.nodes[i].tag == Some(EId::Text)
}

/// The shifts of node `i` and its ancestors, innermost first, up to but not
/// including the nearest `text` element.
pub open spec fn shifts_from(d: DocView, i: int) -> Seq<BaselineShift>
    decreases i,
{
    if d.valid(i) && !is_text_element(d, i) {
        let head = match shift_entry(d, i) {
            Some(e) => seq![e],
            None => Seq::<BaselineShift>::empty(),
        };
        if 0 <= d.nodes[i].parent < i {
            head + shifts_from(d, d.nodes[i].parent)
        } else {
            head
        }
    } else {
        Seq::empty()
    }
}

/// Every entry is `Baseline`.
pub open spec fn all_baseline(s: Seq<BaselineShift>) -> bool {
    forall|k: int| 0 <= k < s.len() ==> s[k] == BaselineShift::Baseline
}

/// The stack of baseline shifts of node `i`: empty where no entry shifts
/// anything.
pub open spec fn baseline_shift_of(d: DocView, i: int) -> Seq<BaselineShift> {
    let s = shifts_from(d, i);
    if all_baseline(s) {
        Seq::empty()
    } else {
        s
    }
}

/// What node `node` adds to a stack of baseline shifts.
fn entry(doc: &Document, node: NodeId) -> (r: Option<BaselineShift>)
    requires
        doc@.valid(node as int),
    ensures
        r == shift_entry(doc@, node as int),
{
    match doc.attribute(node, AId::BaselineShift) {
        None => None,
        Some(s) => match doc.resolved(node).baseline_shift {
            Some(n) => Some(BaselineShift::Number(n)),
            None => if same_text(s, "sub") {
                Some(BaselineShift::Subscript)
            } else if same_text(s, "super") {
                Some(BaselineShift::Superscript)
            } else {
                Some(BaselineShift::Baseline)
            },
        },
    }
}

/// The stack of baseline shifts of node `node`.
pub fn convert_baseline_shift(doc: &Document, node: NodeId) -> (shift: Vec<BaselineShift>)
    requires
        doc@.valid(node as int),
    ensures
        shift@ == baseline_shift_of(doc@, node as int),
{
    let mut shift: Vec<BaselineShift> = Vec::new();
    let chain = doc.ancestors(node);
    let mut k: usize = 0;
    proof {
        assert(shift@ + shifts_from(doc@, node as int) =~= shifts_from(doc@, node as int));
    }
    loop
        invariant_except_break
            k < chain@.len(),
            shifts_from(doc@, node as int) == shift@ + shifts_from(doc@, chain@[k as int] as int),
        invariant
            chain@.len() >= 1,
            forall|j: int| 0 <= j < chain@.len() ==> doc@.valid(#[trigger] chain@[j] as int),
            forall|j: int|
                0 <= j < chain@.len() - 1 ==> (#[trigger] chain@[j + 1])
                    == doc@.nodes[chain@[j] as int].parent && chain@[j + 1] < chain@[j],
            !(doc@.nodes[chain@.last() as int].parent < chain@.last()),
        ensures
            shifts_from(doc@, node as int) == shift@,
        decreases chain@.len() - k,
    {
        let n = chain[k];
        let ghost before = shift@;
        let ghost rest = shifts_from(doc@, n as int);
        if let Some(EId::Text) = doc.tag_name(n) {
            proof {
                assert(before + rest =~= before);
            }
            break;
        }
        let ghost head = match shift_entry(doc@, n as int) {
            Some(e) => seq![e],
            None => Seq::<BaselineShift>::empty(),
        };
        if let Some(e) = entry(doc, n) {
            shift.push(e);
        }
        proof {
            assert(shift@ =~= before + head);
        }
        if k >= chain.len() - 1 {
            proof {
                assert(rest == head);
            }
            break;
        }
        proof {
            assert(chain@[k + 1] == doc@.nodes[n as int].parent);
            let tail = shifts_from(doc@, chain@[k + 1] as int);
            assert(rest == head + tail);
            assert(before + (head + tail) =~= (before + head) + tail);
        }
        k = k + 1;
    }
    let mut i: usize = 0;
    let mut plain = true;
    while i < shift.len()
        invariant
            i <= shift@.len(),
            plain == all_baseline(shift@.take(i as int)),
        decreases shift.len() - i,
    {
        let ghost seen = shift@.take(i as int);
        let ghost more = shift@.take(i as int + 1);
        let is_baseline = match shift[i] {
            BaselineShift::Baseline => true,
            _ => false,
        };
        proof {
            assert(more[i as int] == shift@[i as int]);
            if all_baseline(more) {
                assert forall|j: int| 0 <= j < seen.len() implies seen[j]
                    == BaselineShift::Baseline by {
                    assert(more[j] == seen[j]);
                }
            }
            if all_baseline(seen) && is_baseline {
                assert forall|j: int| 0 <= j < more.len() implies more[j]
                    == BaselineShift::Baseline by {
                    if j < i {
                        assert(more[j] == seen[j]);
                    }
                }
            }
        }
        plain = plain && is_baseline;
        i = i + 1;
    }
    proof {
        assert(shift@.take(shift@.len() as int) =~= shift@);
    }
    if plain {
        shift.clear();
    }
    shift
}

} // verus!
