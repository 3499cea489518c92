use vstd::prelude::*;
use roxmltree::Document as XmlDocument;
use roxmltree::Error as XmlError;
use crate::error::Error;
use crate::names::{attribute_of, element_of, same_text, AId, EId};
use crate::number::Number;
use crate::svgtree::{
    attrs_view, lemma_empty_wf, lemma_with_element_wf, lemma_with_text_wf,
    lemma_with_top_closed_wf, string_view, AttrView, Attribute, DocView, Document, Resolved,
    ResolvedView,
};

verus! {

/// A parsed XML document, as the XML parser holds it.
#[verifier::external_type_specification]
#[verifier::external_body]
pub struct ExXmlDocument<'input>(XmlDocument<'input>);

/// What a node of an XML document is.
#[derive(Clone, Copy, Debug, PartialEq, Eq, Structural)]
pub enum XmlKind {
    Root,
    Element,
    Text,
    /// A comment or a processing instruction.
    Other,
}

/// One attribute of an XML element.
#[derive(Debug)]
pub struct XmlAttribute {
    /// The name without its prefix.
    pub name: String,
    pub value: String,
}

/// Mathematical model of an [`XmlAttribute`].
pub struct XmlAttributeView {
    pub name: Seq<char>,
    pub value: Seq<char>,
}

impl View for XmlAttribute {
    type V = XmlAttributeView;

    open spec fn view(&self) -> XmlAttributeView {
        XmlAttributeView { name: self.name@, value: self.value@ }
    }
}

/// The models of a run of XML attributes.
pub open spec fn xml_attrs_view(attrs: Seq<XmlAttribute>) -> Seq<XmlAttributeView> {
    Seq::new(attrs.len(), |i: int| attrs[i]@)
}

/// A node of an XML document, without its attributes.
#[derive(Debug)]
pub struct XmlNode {
    pub kind: XmlKind,
    /// Index of the parent; the root has none.
    pub parent: Option<usize>,
    /// Namespace of the tag name.
    pub namespace: Option<String>,
    /// The tag name without its prefix; empty for what is no element.
    pub name: String,
    /// The text of a text node.
    pub text: Option<String>,
}

/// Mathematical model of a node of an XML document.
pub struct XmlNodeView {
    pub kind: XmlKind,
    pub parent: Option<int>,
    pub namespace: Option<Seq<char>>,
    pub name: Seq<char>,
    pub text: Option<Seq<char>>,
    pub attrs: Seq<XmlAttributeView>,
}

impl XmlNode {
    /// The node is the one that `v` describes, attributes aside.
    pub open spec fn is(self, v: XmlNodeView) -> bool {
        &&& self.kind == v.kind
        &&& match self.parent {
            Some(p) => v.parent == Some(p as int),
            None => v.parent is None,
        }
        &&& string_view(self.namespace) == v.namespace
        &&& self.name@ == v.name
        &&& string_view(self.text) == v.text
    }
}

/// The nodes of a parsed XML document, in document order, the root first.
pub uninterp spec fn xml_nodes(doc: &XmlDocument) -> Seq<XmlNodeView>;

/// The nodes that `roxmltree` parses a text into, DTDs allowed; `None` where
/// the text is no well-formed XML.
pub uninterp spec fn xml_parsed(text: Seq<char>) -> Option<Seq<XmlNodeView>>;

/// `roxmltree::Document::parse_with_options`, with DTDs allowed and no limit
/// on the number of nodes: whether the text parses, and the nodes it parses
/// into, depend on the text alone.
#[verifier::external_body]
pub(crate) fn parse_xml<'a>(text: &'a str) -> (r: Result<XmlDocument<'a>, XmlError>)
    ensures
        match r {
            Ok(doc) => xml_parsed(text@) == Some(xml_nodes(&doc)),
            Err(_) => xml_parsed(text@) is None,
        },
{
    let options = roxmltree::ParsingOptions { allow_dtd: true, ..Default::default() };
    XmlDocument::parse_with_options(text, options)
}

/// `roxmltree::Document::descendants`, counted: the number of nodes of the
/// document. There is always a root.
#[verifier::external_body]
fn xml_len(doc: &XmlDocument) -> (n: usize)
    ensures
        n == xml_nodes(doc).len(),
        n >= 1,
{
    doc.descendants().count()
}

/// `roxmltree::Document::get_node` and the getters of `roxmltree::Node`: the
/// node with index `id`, attributes aside. Nodes are numbered in document
/// order, so a parent comes before its children.
#[verifier::external_body]
fn xml_node(doc: &XmlDocument, id: usize) -> (r: XmlNode)
    requires
        id < xml_nodes(doc).len(),
    ensures
        r.is(xml_nodes(doc)[id as int]),
        r.parent matches Some(p) ==> p < id,
{
    let node = doc.get_node(roxmltree::NodeId::from(id)).unwrap();
    XmlNode {
        kind: match node.node_type() {
            roxmltree::NodeType::Root => XmlKind::Root,
            roxmltree::NodeType::Element => XmlKind::Element,
            roxmltree::NodeType::Text => XmlKind::Text,
            roxmltree::NodeType::PI => XmlKind::Other,
            roxmltree::NodeType::Comment => XmlKind::Other,
        },
        parent: node.parent().map(|p| p.id().get_usize()),
        namespace: node.tag_name().namespace().map(|s| s.to_owned()),
        name: node.tag_name().name().to_owned(),
        text: node.text().map(|t| t.to_owned()),
    }
}

/// `roxmltree::Node::attributes`: the attributes of the node with index
/// `id`, in the order in which the document holds them.
#[verifier::external_body]
fn xml_attributes(doc: &XmlDocument, id: usize) -> (attrs: Vec<XmlAttribute>)
    requires
        id < xml_nodes(doc).len(),
    ensures
        xml_attrs_view(attrs@) == xml_nodes(doc)[id as int].attrs,
{
    let node = doc.get_node(roxmltree::NodeId::from(id)).unwrap();
    node.attributes().map(
        |a| XmlAttribute { name: a.name().to_owned(), value: a.value().to_owned() },
    ).collect()
}

/// The greatest number of elements that a document may hold.
pub const ELEMENTS_LIMIT: usize = 1_000_000;

/// The namespace of SVG.
pub open spec fn svg_namespace() -> Seq<char> {
    "http://www.w3.org/2000/svg"@
}

/// The element that an XML node stands for, if it is an element of SVG that
/// the tree keeps.
pub open spec fn kept_element(node: XmlNodeView) -> Option<EId> {
    if node.kind == XmlKind::Element && node.namespace == Some(svg_namespace()) {
        element_of(node.name)
    } else {
        None
    }
}

/// The attributes that the tree keeps of `attrs`: those with a known name,
/// in order.
pub open spec fn kept_attrs(attrs: Seq<XmlAttributeView>) -> Seq<AttrView>
    decreases attrs.len(),
{
    if attrs.len() == 0 {
        Seq::empty()
    } else {
        let rest = kept_attrs(attrs.drop_last());
        match attribute_of(attrs.last().name) {
            Some(id) => rest.push(AttrView { id, value: attrs.last().value }),
            None => rest,
        }
    }
}

/// A document under construction from XML nodes.
pub struct Build {
    pub doc: DocView,
    /// For each open element of `doc`, the index of the XML node that it
    /// stands for.
    pub stack: Seq<int>,
    /// Elements in `doc`.
    pub elements: int,
    /// The document cannot be built: it would hold too many elements, or too
    /// much text.
    pub failed: bool,
}

/// A text node with text `text` can be added to `doc`.
pub open spec fn fits(doc: DocView, text: Seq<char>) -> bool {
    doc.len() < usize::MAX && 4 * (doc.chars_in(0, doc.len()) + text.len()) <= usize::MAX
}

impl Build {
    /// Nothing built yet but the root.
    pub open spec fn start() -> Build {
        Build { doc: DocView::empty(), stack: seq![0int], elements: 0, failed: false }
    }

    /// The open elements and the XML nodes they stand for go together, and
    /// the limit on elements is kept.
    pub open spec fn inv(self) -> bool {
        &&& self.doc.wf()
        &&& self.stack.len() == self.doc.open.len()
        &&& 0 <= self.elements <= ELEMENTS_LIMIT
    }

    /// The build after every open element that stands for an XML node with
    /// an index above `p` was closed.
    pub open spec fn unwind(self, p: int) -> Build
        decreases self.stack.len(),
    {
        if self.stack.len() > 1 && self.stack.last() > p {
            Build { doc: self.doc.with_top_closed(), stack: self.stack.drop_last(), ..self }.unwind(
                p,
            )
        } else {
            self
        }
    }

    /// The build after XML node `node` with index `id` was looked at.
    ///
    /// The elements that ended before it are closed. The node is left out
    /// with all below it unless its parent is in the document; it is added as
    /// an element if it is an element of SVG that the tree keeps, and as a
    /// text node if it is text.
    pub open spec fn add(self, node: XmlNodeView, id: int) -> Build {
        if self.failed {
            self
        } else {
            match node.parent {
                None => self,
                Some(p) => {
                    let u = self.unwind(p);
                    if u.stack.last() != p {
                        u
                    } else {
                        match node.kind {
                            XmlKind::Element => match kept_element(node) {
                                None => u,
                                Some(tag) => if u.elements >= ELEMENTS_LIMIT {
                                    Build { failed: true, ..u }
                                } else {
                                    Build {
                                        doc: u.doc.with_element(
                                            tag,
                                            kept_attrs(node.attrs),
                                            ResolvedView::plain(Number { bits: 0 }),
                                        ),
                                        stack: u.stack.push(id),
                                        elements: u.elements + 1,
                                        failed: false,
                                    }
                                },
                            },
                            XmlKind::Text => match node.text {
                                None => u,
                                Some(t) => if fits(u.doc, t) {
                                    Build { doc: u.doc.with_text(t), ..u }
                                } else {
                                    Build { failed: true, ..u }
                                },
                            },
                            _ => u,
                        }
                    }
                },
            }
        }
    }
}

/// The build after the first `n` XML nodes were looked at.
pub open spec fn built_upto(nodes: Seq<XmlNodeView>, n: int) -> Build
    decreases n,
{
    if n <= 1 {
        Build::start()
    } else {
        built_upto(nodes, n - 1).add(nodes[n - 1], n - 1)
    }
}

/// The document that XML nodes stand for: the elements of SVG that the tree
/// keeps and the text in them, in document order, every element closed.
/// `None` where there are more than [`ELEMENTS_LIMIT`] such elements, or
/// more text than a document can hold.
pub open spec fn tree_of(nodes: Seq<XmlNodeView>) -> Option<DocView> {
    let b = built_upto(nodes, nodes.len() as int);
    if b.failed {
        None
    } else {
        Some(b.unwind(0).doc)
    }
}

/// Closing elements keeps the build in order.
pub proof fn lemma_unwind_inv(b: Build, p: int)
    requires
        b.inv(),
    ensures
        b.unwind(p).inv(),
        b.unwind(p).failed == b.failed,
        b.unwind(p).elements == b.elements,
    decreases b.stack.len(),
{
    if b.stack.len() > 1 && b.stack.last() > p {
        lemma_with_top_closed_wf(b.doc);
        let next = Build { doc: b.doc.with_top_closed(), stack: b.stack.drop_last(), ..b };
        lemma_unwind_inv(next, p);
    }
}

/// Looking at one more node keeps the build in order.
#[verifier::rlimit(40)]
pub proof fn lemma_add_inv(b: Build, node: XmlNodeView, id: int)
    requires
        b.inv(),
    ensures
        b.add(node, id).inv(),
{
    if !b.failed {
        match node.parent {
            None => {},
            Some(p) => {
                lemma_unwind_inv(b, p);
                let u = b.unwind(p);
                if u.stack.last() == p {
                    match node.kind {
                        XmlKind::Element => match kept_element(node) {
                            None => {},
                            Some(tag) => {
                                lemma_with_element_wf(
                                    u.doc,
                                    tag,
                                    kept_attrs(node.attrs),
                                    ResolvedView::plain(Number { bits: 0 }),
                                );
                            },
                        },
                        XmlKind::Text => match node.text {
                            None => {},
                            Some(t) => {
                                if fits(u.doc, t) {
                                    lemma_with_text_wf(u.doc, t);
                                }
                            },
                        },
                        _ => {},
                    }
                }
            },
        }
    }
}

/// The attributes that the tree keeps of `attrs`.
fn convert_attributes(attrs: &Vec<XmlAttribute>) -> (kept: Vec<Attribute>)
    ensures
        attrs_view(kept@) == kept_attrs(xml_attrs_view(attrs@)),
{
    let mut kept: Vec<Attribute> = Vec::new();
    let mut i: usize = 0;
    let ghost all = xml_attrs_view(attrs@);
    proof {
        assert(attrs_view(kept@) =~= kept_attrs(all.take(0)));
    }
    while i < attrs.len()
        invariant
            i <= attrs@.len(),
            all == xml_attrs_view(attrs@),
            attrs_view(kept@) == kept_attrs(all.take(i as int)),
        decreases attrs.len() - i,
    {
        let ghost before = attrs_view(kept@);
        proof {
            assert(all.take(i as int + 1).drop_last() =~= all.take(i as int));
            assert(all.take(i as int + 1).last() == attrs@[i as int]@);
        }
        match AId::from_name(attrs[i].name.as_str()) {
            Some(id) => {
                kept.push(Attribute { id, value: attrs[i].value.clone() });
                proof {
                    assert(attrs_view(kept@) =~= before.push(
                        AttrView { id, value: attrs@[i as int].value@ },
                    ));
                }
            },
            None => {},
        }
        i = i + 1;
    }
    proof {
        assert(all.take(attrs@.len() as int) =~= all);
    }
    kept
}

/// The views of a run of indices.
pub open spec fn ints(s: Seq<usize>) -> Seq<int> {
    Seq::new(s.len(), |i: int| s[i] as int)
}

/// Closes every open element that stands for an XML node with an index
/// above `p`.
#[verifier::rlimit(40)]
fn unwind_to(doc: &mut Document, stack: &mut Vec<usize>, p: usize, Ghost(b): Ghost<Build>)
    requires
        old(doc).wf(),
        b.inv(),
        b.doc == old(doc)@,
        b.stack == ints(old(stack)@),
    ensures
        final(doc).wf(),
        final(doc)@ == b.unwind(p as int).doc,
        ints(final(stack)@) == b.unwind(p as int).stack,
        final(stack)@.len() >= 1,
{
    let ghost mut cur = b;
    proof {
        assert(b.doc.open_wf());
    }
    while stack.len() > 1 && stack[stack.len() - 1] > p
        invariant
            doc.wf(),
            cur.inv(),
            cur.doc == doc@,
            cur.stack == ints(stack@),
            stack@.len() >= 1,
            cur.unwind(p as int) == b.unwind(p as int),
        decreases stack@.len(),
    {
        proof {
            assert(cur.stack.last() == stack@[stack@.len() - 1] as int);
            lemma_with_top_closed_wf(cur.doc);
        }
        let done = doc.close_element();
        stack.pop();
        proof {
            let next = Build { doc: cur.doc.with_top_closed(), stack: cur.stack.drop_last(), ..cur };
            assert(ints(stack@) =~= cur.stack.drop_last());
            cur = next;
        }
    }
    proof {
        if stack@.len() > 1 {
            assert(cur.stack.last() == stack@[stack@.len() - 1] as int);
        }
    }
}

/// Adds the element that XML node `id` stands for, if it stands for one.
#[verifier::rlimit(40)]
fn add_element(
    xml: &XmlDocument,
    id: usize,
    node: &XmlNode,
    doc: &mut Document,
    stack: &mut Vec<usize>,
    elements: &mut usize,
    Ghost(u): Ghost<Build>,
) -> (ok: bool)
    requires
        id < xml_nodes(xml).len(),
        node.is(xml_nodes(xml)[id as int]),
        node.kind == XmlKind::Element,
        node.parent is Some,
        old(doc).wf(),
        u.inv(),
        !u.failed,
        u.unwind(node.parent->0 as int) == u,
        u.stack.last() == node.parent->0,
        u.doc == old(doc)@,
        u.stack == ints(old(stack)@),
        u.elements == *old(elements),
    ensures
        ok == !u.add(xml_nodes(xml)[id as int], id as int).failed,
        final(doc).wf(),
        ok ==> final(doc)@ == u.add(xml_nodes(xml)[id as int], id as int).doc,
        ok ==> ints(final(stack)@) == u.add(xml_nodes(xml)[id as int], id as int).stack,
        ok ==> *final(elements) == u.add(xml_nodes(xml)[id as int], id as int).elements,
{
    let in_svg = match &node.namespace {
        Some(ns) => same_text(ns.as_str(), "http://www.w3.org/2000/svg"),
        None => false,
    };
    let tag = if in_svg {
        EId::from_name(node.name.as_str())
    } else {
        None
    };
    proof {
        assert(tag == kept_element(xml_nodes(xml)[id as int]));
    }
    match tag {
        None => true,
        Some(tag) => {
            if *elements >= ELEMENTS_LIMIT {
                return false;
            }
            let attrs = convert_attributes(&xml_attributes(xml, id));
            doc.open_element(tag, attrs, Resolved::plain(Number { bits: 0 }));
            stack.push(id);
            *elements = *elements + 1;
            proof {
                assert(ints(stack@) =~= u.stack.push(id as int));
            }
            true
        },
    }
}

/// Adds the text node that XML node `id` stands for.
fn add_text(node: &XmlNode, v: Ghost<XmlNodeView>, id: Ghost<int>, doc: &mut Document, Ghost(u): Ghost<Build>) -> (ok:
    bool)
    requires
        node.is(v@),
        node.kind == XmlKind::Text,
        node.parent is Some,
        old(doc).wf(),
        u.inv(),
        !u.failed,
        u.unwind(node.parent->0 as int) == u,
        u.stack.last() == node.parent->0,
        u.doc == old(doc)@,
    ensures
        ok == !u.add(v@, id@).failed,
        final(doc).wf(),
        ok ==> final(doc)@ == u.add(v@, id@).doc,
        u.add(v@, id@).stack == u.stack,
        u.add(v@, id@).elements == u.elements,
{
    match &node.text {
        None => true,
        Some(text) => match doc.append_text(text.as_str()) {
            Some(_) => true,
            None => false,
        },
    }
}

/// Looks at XML node `id`.
#[verifier::rlimit(40)]
fn add_node(
    xml: &XmlDocument,
    id: usize,
    doc: &mut Document,
    stack: &mut Vec<usize>,
    elements: &mut usize,
    Ghost(b): Ghost<Build>,
) -> (ok: bool)
    requires
        id < xml_nodes(xml).len(),
        old(doc).wf(),
        b.inv(),
        !b.failed,
        b.doc == old(doc)@,
        b.stack == ints(old(stack)@),
        b.elements == *old(elements),
    ensures
        ok == !b.add(xml_nodes(xml)[id as int], id as int).failed,
        final(doc).wf(),
        ok ==> final(doc)@ == b.add(xml_nodes(xml)[id as int], id as int).doc,
        ok ==> ints(final(stack)@) == b.add(xml_nodes(xml)[id as int], id as int).stack,
        ok ==> *final(elements) == b.add(xml_nodes(xml)[id as int], id as int).elements,
{
    let ghost v = xml_nodes(xml)[id as int];
    let node = xml_node(xml, id);
    match node.parent {
        None => true,
        Some(p) => {
            proof {
                lemma_unwind_inv(b, p as int);
                lemma_unwind_twice(b, p as int);
            }
            unwind_to(doc, stack, p, Ghost(b));
            let ghost u = b.unwind(p as int);
            proof {
                assert(u.stack.last() == stack@[stack@.len() - 1] as int);
                assert(b.add(v, id as int) == u.add(v, id as int));
            }
            if stack[stack.len() - 1] == p {
                match node.kind {
                    XmlKind::Element => add_element(xml, id, &node, doc, stack, elements, Ghost(u)),
                    XmlKind::Text => add_text(&node, Ghost(v), Ghost(id as int), doc, Ghost(u)),
                    _ => true,
                }
            } else {
                true
            }
        },
    }
}

/// Builds the document that a parsed XML document stands for.
///
/// The elements of SVG that the tree keeps and the text in them are taken
/// over in document order; an element that the tree does not keep is left
/// out with all below it. Nothing is resolved yet: every element is visible
/// and has no lengths, paints or lists.
#[verifier::rlimit(40)]
pub fn parse_tree(xml: &XmlDocument) -> (r: Result<Document, Error>)
    ensures
        match r {
            Ok(doc) => doc.wf() && tree_of(xml_nodes(xml)) == Some(doc@),
            Err(e) => e is ElementsLimitReached && tree_of(xml_nodes(xml)) is None,
        },
{
    let n = xml_len(xml);
    let ghost nodes = xml_nodes(xml);
    let mut doc = Document::new();
    let mut stack: Vec<usize> = Vec::new();
    stack.push(0);
    let mut elements: usize = 0;
    let mut id: usize = 1;
    proof {
        lemma_empty_wf();
        assert(ints(stack@) =~= seq![0int]);
    }
    while id < n
        invariant
            n == nodes.len(),
            nodes == xml_nodes(xml),
            1 <= id <= n,
            doc.wf(),
            built_upto(nodes, id as int).inv(),
            !built_upto(nodes, id as int).failed,
            built_upto(nodes, id as int).doc == doc@,
            built_upto(nodes, id as int).stack == ints(stack@),
            built_upto(nodes, id as int).elements == elements,
        decreases n - id,
    {
        let ghost b = built_upto(nodes, id as int);
        proof {
            lemma_add_inv(b, nodes[id as int], id as int);
        }
        let ok = add_node(xml, id, &mut doc, &mut stack, &mut elements, Ghost(b));
        if !ok {
            proof {
                lemma_failed_stays(nodes, id as int + 1, n as int);
            }
            return Err(Error::ElementsLimitReached);
        }
        id = id + 1;
    }
    let ghost b = built_upto(nodes, n as int);
    unwind_to(&mut doc, &mut stack, 0, Ghost(b));
    Ok(doc)
}

/// Closing down to the same node a second time closes nothing more.
pub proof fn lemma_unwind_twice(b: Build, p: int)
    ensures
        b.unwind(p).unwind(p) == b.unwind(p),
    decreases b.stack.len(),
{
    if b.stack.len() > 1 && b.stack.last() > p {
        let next = Build { doc: b.doc.with_top_closed(), stack: b.stack.drop_last(), ..b };
        lemma_unwind_twice(next, p);
    }
}

/// Once a build has failed, it stays failed.
pub proof fn lemma_failed_stays(nodes: Seq<XmlNodeView>, m: int, n: int)
    requires
        1 <= m <= n,
        built_upto(nodes, m).failed,
    ensures
        built_upto(nodes, n).failed,
    decreases n - m,
{
    if m < n {
        lemma_failed_stays(nodes, m, n - 1);
    }
}

} // verus!
