use vstd::prelude::*;
use crate::chars::{find_sep, is_white_space, next_sep, string_from, white_space};
use crate::converter::State;
use crate::names::{same_text, AId};
use crate::svgtree::{chars_of, str_view, DocView, Document, NodeId};
use crate::text::{strings_view, Font, FontStretch, FontStyle, FontView};

verus! {

/// The weight that every cascade starts from.
pub const NORMAL_WEIGHT: u16 = 400;

/// The weight that `bold` stands for.
pub const BOLD_WEIGHT: u16 = 700;

/// `w` brought into the range of weights, 100 to 900.
pub open spec fn clamp_weight(w: int) -> int {
    if w < 100 {
        100
    } else if w > 900 {
        900
    } else {
        w
    }
}

/// The weight one step bolder. From 400 the step is 300, elsewhere 100.
pub open spec fn bolder(w: int) -> int {
    clamp_weight(w + if w == 400 { 300int } else { 100int })
}

/// The weight one step lighter. From 400 the step is 200, elsewhere 100.
pub open spec fn lighter(w: int) -> int {
    clamp_weight(w - if w == 400 { 200int } else { 100int })
}

/// The weight of an element whose parent has weight `w` and whose own
/// `font-weight` is `value`.
pub open spec fn next_weight(w: int, value: Option<Seq<char>>) -> int {
    match value {
        None => w,
        Some(v) => if v == "normal"@ {
            400
        } else if v == "bold"@ {
            700
        } else if v == "100"@ {
            100
        } else if v == "200"@ {
            200
        } else if v == "300"@ {
            300
        } else if v == "400"@ {
            400
        } else if v == "500"@ {
            500
        } else if v == "600"@ {
            600
        } else if v == "700"@ {
            700
        } else if v == "800"@ {
            800
        } else if v == "900"@ {
            900
        } else if v == "bolder"@ {
            bolder(w)
        } else if v == "lighter"@ {
            lighter(w)
        } else {
            w
        },
    }
}

/// The weight of node `i`: the cascade runs from the outermost element down
/// to `i`, starting at 400; the root takes no part.
pub open spec fn font_weight(d: DocView, i: int) -> int
    decreases i,
{
    if d.valid(i) && 0 <= d.nodes[i].parent < i {
        next_weight(font_weight(d, d.nodes[i].parent), d.attribute(i, AId::FontWeight))
    } else {
        400
    }
}

/// Among the weights 100, 200, ..., 900, a step bolder followed by a step
/// lighter leads back to the start from every weight but 300, 400 and 900:
/// from 300 it ends at 200, from 400 at 600 and from 900 at 800.
pub proof fn lemma_bolder_then_lighter(w: int)
    requires
        100 <= w <= 900,
        w % 100 == 0,
    ensures
        lighter(bolder(w)) == w <==> w != 300 && w != 400 && w != 900,
        lighter(bolder(300)) == 200,
        lighter(bolder(400)) == 600,
        lighter(bolder(900)) == 800,
{
}

/// One step of the cascade.
pub fn step_weight(w: u16, value: Option<&str>) -> (r: u16)
    requires
        100 <= w <= 900,
    ensures
        r == next_weight(w as int, str_view(value)),
        100 <= r <= 900,
        w % 100 == 0 ==> r % 100 == 0,
{
    match value {
        None => w,
        Some(v) => if same_text(v, "normal") {
            NORMAL_WEIGHT
        } else if same_text(v, "bold") {
            BOLD_WEIGHT
        } else if same_text(v, "100") {
            100
        } else if same_text(v, "200") {
            200
        } else if same_text(v, "300") {
            300
        } else if same_text(v, "400") {
            400
        } else if same_text(v, "500") {
            500
        } else if same_text(v, "600") {
            600
        } else if same_text(v, "700") {
            700
        } else if same_text(v, "800") {
            800
        } else if same_text(v, "900") {
            900
        } else if same_text(v, "bolder") {
            let step: u16 = if w == NORMAL_WEIGHT {
                300
            } else {
                100
            };
            let sum: u16 = w + step;
            if sum > 900 {
                900
            } else {
                sum
            }
        } else if same_text(v, "lighter") {
            let step: u16 = if w == NORMAL_WEIGHT {
                200
            } else {
                100
            };
            let rest: u16 = w - step;
            if rest < 100 {
                100
            } else {
                rest
            }
        } else {
            w
        },
    }
}

/// The weight of node `node`.
pub fn resolve_font_weight(doc: &Document, node: NodeId) -> (w: u16)
    requires
        doc@.valid(node as int),
    ensures
        w == font_weight(doc@, node as int),
        100 <= w <= 900,
        w % 100 == 0,
{
    let chain = doc.ancestors(node);
    let mut w: u16 = NORMAL_WEIGHT;
    let mut k: usize = chain.len() - 1;
    while k > 0
        invariant
            k < chain@.len(),
            100 <= w <= 900,
            w % 100 == 0,
            w == font_weight(doc@, chain@[k as int] as int),
            forall|j: int| 0 <= j < chain@.len() ==> doc@.valid(#[trigger] chain@[j] as int),
            forall|j: int|
                0 <= j < chain@.len() - 1 ==> (#[trigger] chain@[j + 1])
                    == doc@.nodes[chain@[j] as int].parent && chain@[j + 1] < chain@[j],
        decreases k,
    {
        k = k - 1;
        proof {
            assert(chain@[k + 1] == doc@.nodes[chain@[k as int] as int].parent);
        }
        w = step_weight(w, doc.attribute(chain[k], AId::FontWeight));
    }
    w
}

/// The width class that a `font-stretch` value stands for.
pub open spec fn font_stretch_of(value: Option<Seq<char>>) -> FontStretch {
    match value {
        None => FontStretch::Normal,
        Some(v) => if v == "narrower"@ || v == "condensed"@ {
            FontStretch::Condensed
        } else if v == "ultra-condensed"@ {
            FontStretch::UltraCondensed
        } else if v == "extra-condensed"@ {
            FontStretch::ExtraCondensed
        } else if v == "semi-condensed"@ {
            FontStretch::SemiCondensed
        } else if v == "semi-expanded"@ {
            FontStretch::SemiExpanded
        } else if v == "wider"@ || v == "expanded"@ {
            FontStretch::Expanded
        } else if v == "extra-expanded"@ {
            FontStretch::ExtraExpanded
        } else if v == "ultra-expanded"@ {
            FontStretch::UltraExpanded
        } else {
            FontStretch::Normal
        },
    }
}

/// The width class of node `node`, from the nearest `font-stretch` at or
/// above it.
pub fn conv_font_stretch(doc: &Document, node: NodeId) -> (r: FontStretch)
    requires
        doc@.valid(node as int),
    ensures
        r == font_stretch_of(doc@.find_attribute(node as int, AId::FontStretch)),
{
    match doc.find_attribute(node, AId::FontStretch) {
        None => FontStretch::Normal,
        Some(v) => if same_text(v, "narrower") || same_text(v, "condensed") {
            FontStretch::Condensed
        } else if same_text(v, "ultra-condensed") {
            FontStretch::UltraCondensed
        } else if same_text(v, "extra-condensed") {
            FontStretch::ExtraCondensed
        } else if same_text(v, "semi-condensed") {
            FontStretch::SemiCondensed
        } else if same_text(v, "semi-expanded") {
            FontStretch::SemiExpanded
        } else if same_text(v, "wider") || same_text(v, "expanded") {
            FontStretch::Expanded
        } else if same_text(v, "extra-expanded") {
            FontStretch::ExtraExpanded
        } else if same_text(v, "ultra-expanded") {
            FontStretch::UltraExpanded
        } else {
            FontStretch::Normal
        },
    }
}

/// A single or a double quote.
pub open spec fn is_quote(c: char) -> bool {
    c == '\'' || c == '"'
}

/// `s` without one leading quote, and then without one trailing quote.
pub open spec fn unquoted(s: Seq<char>) -> Seq<char> {
    let a = if s.len() > 0 && is_quote(s[0]) {
        s.drop_first()
    } else {
        s
    };
    if a.len() > 0 && is_quote(a.last()) {
        a.drop_last()
    } else {
        a
    }
}

/// First index at or after `i` that holds no white space, or the length.
pub open spec fn trim_start(s: Seq<char>, i: int) -> int
    decreases s.len() - i,
{
    if 0 <= i < s.len() && white_space(s[i]) {
        trim_start(s, i + 1)
    } else {
        i
    }
}

/// Least index at or below `j`, and not below `lo`, with only white space
/// between it and `j`.
pub open spec fn trim_end(s: Seq<char>, lo: int, j: int) -> int
    decreases j,
{
    if lo < j <= s.len() && 0 < j && white_space(s[j - 1]) {
        trim_end(s, lo, j - 1)
    } else {
        j
    }
}

/// `s` without leading and trailing white space.
pub open spec fn trimmed(s: Seq<char>) -> Seq<char> {
    let a = trim_start(s, 0);
    s.subrange(a, trim_end(s, a, s.len() as int))
}

/// One name of a family list: quotes stripped, then white space trimmed.
pub open spec fn clean(piece: Seq<char>) -> Seq<char> {
    trimmed(unquoted(piece))
}

/// The family names that `s` lists from index `from` on: the pieces between
/// commas, cleaned, without the empty ones.
pub open spec fn families_from(s: Seq<char>, from: int) -> Seq<Seq<char>>
    decreases s.len() - from,
{
    if 0 <= from <= s.len() {
        let e = next_sep(s, ',', from);
        let piece = clean(s.subrange(from, e));
        let head = if piece.len() > 0 {
            seq![piece]
        } else {
            Seq::<Seq<char>>::empty()
        };
        if from <= e < s.len() {
            head + families_from(s, e + 1)
        } else {
            head
        }
    } else {
        Seq::empty()
    }
}

/// The family names of a font: those that `value` lists or, where it lists
/// none, the default.
pub open spec fn families_of(value: Seq<char>, default: Seq<char>) -> Seq<Seq<char>> {
    let listed = families_from(value, 0);
    if listed.len() == 0 {
        seq![default]
    } else {
        listed
    }
}

/// Bounds of the cleaned piece `[from, to)` of `chars`.
#[verifier::rlimit(40)]
fn clean_range(chars: &Vec<char>, from: usize, to: usize) -> (r: (usize, usize))
    requires
        from <= to <= chars@.len(),
    ensures
        from <= r.0 <= r.1 <= to,
        chars@.subrange(r.0 as int, r.1 as int) == clean(chars@.subrange(from as int, to as int)),
{
    let ghost piece = chars@.subrange(from as int, to as int);
    let mut a = from;
    let mut b = to;
    if a < b && (chars[a] == '\'' || chars[a] == '"') {
        a = a + 1;
    }
    let ghost mid = chars@.subrange(a as int, to as int);
    proof {
        if a == from {
            assert(mid == piece);
        } else {
            assert(mid =~= piece.drop_first());
        }
    }
    if a < b && (chars[b - 1] == '\'' || chars[b - 1] == '"') {
        b = b - 1;
    }
    let ghost bare = chars@.subrange(a as int, b as int);
    proof {
        if b == to {
            assert(bare == mid);
        } else {
            assert(bare =~= mid.drop_last());
        }
        assert(bare == unquoted(piece));
    }
    let mut i = a;
    while i < b && is_white_space(chars[i])
        invariant
            a <= i <= b <= chars@.len(),
            bare == chars@.subrange(a as int, b as int),
            trim_start(bare, 0) == trim_start(bare, i - a),
        decreases b - i,
    {
        proof {
            assert(bare[i - a] == chars@[i as int]);
        }
        i = i + 1;
    }
    proof {
        if i < b {
            assert(bare[i - a] == chars@[i as int]);
        }
        assert(trim_start(bare, 0) == i - a);
    }
    let mut j = b;
    while i < j && is_white_space(chars[j - 1])
        invariant
            a <= i <= j <= b <= chars@.len(),
            bare == chars@.subrange(a as int, b as int),
            trim_end(bare, i - a, b - a) == trim_end(bare, i - a, j - a),
        decreases j,
    {
        proof {
            assert(bare[j - a - 1] == chars@[j - 1]);
        }
        j = j - 1;
    }
    proof {
        if i < j {
            assert(bare[j - a - 1] == chars@[j - 1]);
        }
        assert(trim_end(bare, i - a, b - a) == j - a);
        assert(bare.subrange(i - a, j - a) =~= chars@.subrange(i as int, j as int));
    }
    (i, j)
}

/// The family names that `value` lists: split at commas, one quote stripped
/// from either end of each piece, white space trimmed, empty names dropped.
#[verifier::rlimit(40)]
pub fn parse_families(value: &str) -> (list: Vec<String>)
    ensures
        strings_view(list@) == families_from(value@, 0),
{
    let chars = chars_of(value);
    let mut list: Vec<String> = Vec::new();
    let mut from: usize = 0;
    proof {
        assert(strings_view(list@) =~= Seq::<Seq<char>>::empty());
        assert(Seq::<Seq<char>>::empty() + families_from(chars@, 0) =~= families_from(
            chars@,
            0,
        ));
    }
    loop
        invariant_except_break
            from <= chars@.len(),
            families_from(chars@, 0) == strings_view(list@) + families_from(chars@, from as int),
        invariant
            chars@ == value@,
        ensures
            strings_view(list@) == families_from(chars@, 0),
        decreases chars@.len() - from,
    {
        let e = find_sep(&chars, ',', from);
        let (a, b) = clean_range(&chars, from, e);
        let ghost before = strings_view(list@);
        let ghost piece = clean(chars@.subrange(from as int, e as int));
        if a < b {
            let name = string_from(&chars, a, b);
            list.push(name);
            proof {
                assert(strings_view(list@) =~= before + seq![piece]);
            }
        }
        proof {
            let head = if piece.len() > 0 {
                seq![piece]
            } else {
                Seq::<Seq<char>>::empty()
            };
            assert(strings_view(list@) =~= before + head);
            if e < chars@.len() {
                assert(before + (head + families_from(chars@, e + 1)) =~= (before + head)
                    + families_from(chars@, e + 1));
            } else {
                assert(before + head =~= strings_view(list@));
            }
        }
        if e >= chars.len() {
            break;
        }
        from = e + 1;
    }
    list
}

/// The font of node `i`.
pub open spec fn font_of(d: DocView, i: int, default_family: Seq<char>) -> FontView {
    FontView {
        families: families_of(
            match d.find_attribute(i, AId::FontFamily) {
                Some(v) => v,
                None => Seq::empty(),
            },
            default_family,
        ),
        style: FontStyle::resolved(d.find_attribute(i, AId::FontStyle)),
        stretch: font_stretch_of(d.find_attribute(i, AId::FontStretch)),
        weight: font_weight(d, i),
    }
}

/// The font of node `node`: its families, style, stretch and weight, each
/// as inherited.
pub fn convert_font(doc: &Document, node: NodeId, state: &State) -> (font: Font)
    requires
        doc@.valid(node as int),
    ensures
        font@ == font_of(doc@, node as int, state.opt.font_family@),
{
    let style = FontStyle::resolve(doc.find_attribute(node, AId::FontStyle));
    let stretch = conv_font_stretch(doc, node);
    let weight = resolve_font_weight(doc, node);
    let mut families = match doc.find_attribute(node, AId::FontFamily) {
        Some(v) => parse_families(v),
        None => parse_families(""),
    };
    proof {
        reveal_strlit("");
        assert(""@ =~= Seq::<char>::empty());
    }
    if families.len() == 0 {
        families.push(state.opt.font_family.clone());
        proof {
            assert(strings_view(families@) =~= seq![state.opt.font_family@]);
        }
    }
    Font { families, style, stretch, weight }
}

} // verus!
