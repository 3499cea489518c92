use std::borrow::Cow;
use vstd::prelude::*;
use vstd::utf8::{pop_first_scalar, valid_first_scalar, valid_utf8};
use roxmltree::Document as XmlDocument;
use crate::error::Error;
use crate::input::{
    gunzip, is_gzip, preprocess_text, preprocessed, text_from_data, text_of_data,
};
use crate::options::Options;
use crate::svgtree::{DocView, Document};
use crate::xml::{parse_tree, parse_xml, tree_of, xml_nodes, xml_parsed, XmlNodeView};

verus! {

/// Ways to get a tree from a source.
pub trait TreeParsing: Sized {
    /// Parses image data: XML text, plain or gzip compressed.
    fn from_data(data: &[u8], opt: &Options) -> Result<Self, Error>;

    /// Parses XML text.
    fn from_str(text: &str, opt: &Options) -> Result<Self, Error>;

    /// Takes a tree from a parsed XML document.
    fn from_xmltree(doc: &XmlDocument, opt: &Options) -> Result<Self, Error>;
}

/// What parsing hands back, with the model of the document in place of the
/// document.
pub open spec fn outcome_view(r: Result<Document, Error>) -> Result<DocView, Error> {
    match r {
        Ok(doc) => Ok(doc@),
        Err(e) => Err(e),
    }
}

/// `r` is what XML nodes give: their document, or the error that says that
/// it would be too large.
pub open spec fn tree_outcome(nodes: Seq<XmlNodeView>, r: Result<DocView, Error>) -> bool {
    match r {
        Ok(d) => tree_of(nodes) == Some(d),
        Err(e) => e is ElementsLimitReached && tree_of(nodes) is None,
    }
}

/// `r` is what a text gives: a parsing failure where the text, prepared for
/// the parser, is no well-formed XML, and else what its nodes give.
pub open spec fn text_outcome(text: Seq<char>, forgiving: bool, r: Result<DocView, Error>) -> bool {
    match xml_parsed(preprocessed(text, forgiving)) {
        Some(nodes) => tree_outcome(nodes, r),
        None => r matches Err(e) && e is ParsingFailed,
    }
}

/// `r` is what image data give: the error that says why they stand for no
/// text, or what their text gives.
pub open spec fn data_outcome(data: Seq<u8>, forgiving: bool, r: Result<DocView, Error>) -> bool {
    match text_of_data(data) {
        Ok(t) => text_outcome(t, forgiving, r),
        Err(e) => r == Err::<DocView, Error>(e),
    }
}

impl TreeParsing for Document {
    /// Parses image data: XML text, plain or gzip compressed.
    fn from_data(data: &[u8], opt: &Options) -> (r: Result<Document, Error>)
        ensures
            data_outcome(data@, opt.forgiving, outcome_view(r)),
            r matches Ok(doc) ==> doc.wf(),
    {
        match text_from_data(data) {
            Ok(text) => Document::from_str(text.as_str(), opt),
            Err(e) => Err(e),
        }
    }

    /// Parses XML text.
    fn from_str(text: &str, opt: &Options) -> (r: Result<Document, Error>)
        ensures
            text_outcome(text@, opt.forgiving, outcome_view(r)),
            r matches Ok(doc) ==> doc.wf(),
    {
        let text = preprocess_text(text, opt);
        let prepared: &str = match &text {
            Cow::Borrowed(s) => s,
            Cow::Owned(s) => s.as_str(),
        };
        match parse_xml(prepared) {
            Ok(doc) => Document::from_xmltree(&doc, opt),
            Err(e) => Err(Error::ParsingFailed(e)),
        }
    }

    /// Takes a tree from a parsed XML document.
    fn from_xmltree(doc: &XmlDocument, opt: &Options) -> (r: Result<Document, Error>)
        ensures
            tree_outcome(xml_nodes(doc), outcome_view(r)),
            r matches Ok(doc) ==> doc.wf(),
    {
        parse_tree(doc)
    }
}

/// Valid UTF-8 never begins with the two bytes that gzip data begin with.
pub proof fn lemma_utf8_is_no_gzip(raw: Seq<u8>)
    requires
        valid_utf8(raw),
    ensures
        !is_gzip(raw),
{
    if is_gzip(raw) {
        reveal_with_fuel(valid_utf8, 2);
        assert(valid_first_scalar(raw));
        let rest = pop_first_scalar(raw);
        assert(rest.len() >= 1);
        assert(rest[0] == raw[1]);
        assert(valid_first_scalar(rest));
    }
}

/// Compressing changes nothing: where gzip data decompress to valid UTF-8,
/// they stand for the same text as the decompressed bytes, and whatever
/// parsing may hand back for the one it may hand back for the other.
pub proof fn lemma_gzip_round_trip(
    compressed: Seq<u8>,
    raw: Seq<u8>,
    forgiving: bool,
    r: Result<DocView, Error>,
)
    requires
        is_gzip(compressed),
        gunzip(compressed) == Some(raw),
        valid_utf8(raw),
    ensures
        text_of_data(compressed) == text_of_data(raw),
        data_outcome(compressed, forgiving, r) == data_outcome(raw, forgiving, r),
{
    lemma_utf8_is_no_gzip(raw);
}

} // verus!
