use vstd::prelude::*;
use vstd::string::StringExecFns;
use roxmltree::Error as XmlError;

verus! {

/// What the XML parser reports when it gives up.
#[verifier::external_type_specification]
#[verifier::external_body]
pub struct ExXmlError(XmlError);

/// List of all errors.
#[derive(Debug)]
pub enum Error {
    /// Only UTF-8 or UTF-16 content is supported.
    UnrecognizedEncoding,
    /// Compressed data must use the gzip format.
    MalformedGZip,
    /// A document with more than 1 000 000 elements is not accepted, nor one
    /// whose text is too long for its bytes to be counted.
    ElementsLimitReached,
    /// The image has no valid size: its width or height is zero or below,
    /// or neither width, nor height, nor a view box is set.
    InvalidSize,
    /// The data is no well-formed XML.
    ParsingFailed(XmlError),
}

impl From<XmlError> for Error {
    fn from(e: XmlError) -> (r: Error) {
        Error::ParsingFailed(e)
    }
}

impl vstd::std_specs::convert::FromSpecImpl<XmlError> for Error {
    open spec fn obeys_from_spec() -> bool {
        true
    }

    open spec fn from_spec(e: XmlError) -> Error {
        Error::ParsingFailed(e)
    }
}

/// `<roxmltree::Error as ToString>::to_string`: the parser's own words for
/// what went wrong. Nothing is claimed of them.
#[verifier::external_body]
fn xml_error_text(e: &XmlError) -> String {
    e.to_string()
}

impl Error {
    /// The words that every message of a parsing failure begins with.
    pub open spec fn parsing_failed_prefix() -> Seq<char> {
        "SVG data parsing failed cause "@
    }

    /// The message of an error that is no parsing failure.
    pub open spec fn plain_message(self) -> Seq<char> {
        match self {
            Error::UnrecognizedEncoding => "provided data has an unrecognized encoding"@,
            Error::MalformedGZip => "provided data has a malformed GZip content"@,
            Error::ElementsLimitReached => "the maximum number of SVG elements has been reached"@,
            Error::InvalidSize => "SVG has an invalid size"@,
            Error::ParsingFailed(_) => Error::parsing_failed_prefix(),
        }
    }

    /// The error in words. A parsing failure is told as a fixed beginning
    /// followed by the parser's own words.
    pub fn message(&self) -> (text: String)
        ensures
            !(self is ParsingFailed) ==> text@ == self.plain_message(),
            self is ParsingFailed ==> text@.len() >= Error::parsing_failed_prefix().len()
                && text@.subrange(0, Error::parsing_failed_prefix().len() as int)
                == Error::parsing_failed_prefix(),
    {
        match self {
            Error::UnrecognizedEncoding => "provided data has an unrecognized encoding".to_owned(),
            Error::MalformedGZip => "provided data has a malformed GZip content".to_owned(),
            Error::ElementsLimitReached => "the maximum number of SVG elements has been reached".to_owned(),
            Error::InvalidSize => "SVG has an invalid size".to_owned(),
            Error::ParsingFailed(e) => {
                let mut text = "SVG data parsing failed cause ".to_owned();
                let detail = xml_error_text(e);
                text.append(detail.as_str());
                proof {
                    let p = Error::parsing_failed_prefix();
                    assert((p + detail@).subrange(0, p.len() as int) =~= p);
                }
                text
            },
        }
    }
}

} // verus!
