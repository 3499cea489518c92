//! The front of an SVG converter: image data are read as text, the text is
//! parsed into a tree of the elements that matter, and `text` elements are
//! lowered to positioned chunks of styled spans.
//!
//! Numbers never change on their way through: lengths and angles are carried
//! by their bit patterns, and so are paints and outlines by handles. Whoever
//! resolves them hands them in with the tree.

pub mod baseline;
pub mod chars;
pub mod chunks;
pub mod converter;
pub mod decoration;
pub mod error;
pub mod font;
pub mod input;
pub mod names;
pub mod number;
pub mod options;
pub mod parsing;
pub mod path;
pub mod positions;
pub mod span;
pub mod style;
pub mod svgtree;
pub mod text;
pub mod xml;

pub use crate::error::Error;
pub use crate::input::{decompress_svgz, preprocess_text, string_from_utf16_bytes};
pub use crate::names::{AId, EId};
pub use crate::options::Options;
pub use crate::parsing::TreeParsing;
