use std::io::Write;

use usvg_parser::error::Error;
use usvg_parser::input::{
    decompress_svgz, preprocess_text, string_from_utf16_bytes, text_from_data, to_text,
};
use usvg_parser::options::Options;
use usvg_parser::text::TextRendering;

fn options(forgiving: bool) -> Options {
    Options {
        forgiving,
        text_rendering: TextRendering::OptimizeLegibility,
        font_family: "Times New Roman".to_string(),
    }
}

fn gzip(data: &[u8]) -> Vec<u8> {
    let mut encoder = flate2::write::GzEncoder::new(Vec::new(), flate2::Compression::default());
    encoder.write_all(data).unwrap();
    encoder.finish().unwrap()
}

#[test]
fn forgiving_mode_strips_nul() {
    let r = preprocess_text("a\0b\0\0c", &options(true));
    assert_eq!(&*r, "abc");
}

#[test]
fn forgiving_mode_keeps_text_without_nul() {
    let r = preprocess_text("<svg/>", &options(true));
    assert_eq!(&*r, "<svg/>");
}

#[test]
fn forgiving_mode_on_only_nul_gives_empty_text() {
    let r = preprocess_text("\0\0", &options(true));
    assert_eq!(&*r, "");
}

#[test]
fn strict_mode_keeps_text() {
    let r = preprocess_text("a\0b", &options(false));
    assert_eq!(&*r, "a\0b");
    assert!(matches!(r, std::borrow::Cow::Borrowed(_)));
}

#[test]
fn utf16_little_endian_with_mark() {
    let bytes = [0xFF, 0xFE, 0x61, 0x00, 0x62, 0x00];
    assert_eq!(string_from_utf16_bytes(&bytes).unwrap(), "ab");
}

#[test]
fn utf16_big_endian_with_mark() {
    let bytes = [0xFE, 0xFF, 0x00, 0x61, 0x04, 0x16];
    assert_eq!(string_from_utf16_bytes(&bytes).unwrap(), "a\u{416}");
}

#[test]
fn utf16_mark_alone_is_empty_text() {
    assert_eq!(string_from_utf16_bytes(&[0xFF, 0xFE]).unwrap(), "");
    assert_eq!(string_from_utf16_bytes(&[0xFE, 0xFF]).unwrap(), "");
}

#[test]
fn utf16_without_mark_tries_little_endian_first() {
    // Both orders decode; the low byte comes first.
    let bytes = [0x61, 0x00];
    assert_eq!(string_from_utf16_bytes(&bytes).unwrap(), "a");
}

#[test]
fn utf16_without_mark_falls_back_to_big_endian() {
    // Low byte first this is a lone surrogate; high byte first it is U+00D8.
    let bytes = [0x00, 0xD8];
    assert_eq!(string_from_utf16_bytes(&bytes).unwrap(), "\u{D8}");
}

#[test]
fn utf16_surrogate_pair() {
    // U+1F600 is D83D DE00.
    let bytes = [0xFF, 0xFE, 0x3D, 0xD8, 0x00, 0xDE];
    assert_eq!(string_from_utf16_bytes(&bytes).unwrap(), "\u{1F600}");
}

#[test]
fn utf16_odd_last_byte_is_left_out() {
    let bytes = [0xFF, 0xFE, 0x61, 0x00, 0x62];
    assert_eq!(string_from_utf16_bytes(&bytes).unwrap(), "a");
}

#[test]
fn utf16_lone_surrogate_is_an_error() {
    let bytes = [0xFF, 0xFE, 0x00, 0xD8];
    assert!(string_from_utf16_bytes(&bytes).is_err());
}

#[test]
fn utf16_empty_is_empty_text() {
    assert_eq!(string_from_utf16_bytes(&[]).unwrap(), "");
}

#[test]
fn text_is_read_as_utf8_first() {
    assert_eq!(to_text("<svg>\u{416}</svg>".as_bytes()).unwrap(), "<svg>\u{416}</svg>");
}

#[test]
fn text_is_read_as_utf16_second() {
    let bytes = [0xFF, 0xFE, 0x3C, 0x00, 0x61, 0x00, 0x2F, 0x00, 0x3E, 0x00];
    assert_eq!(to_text(&bytes).unwrap(), "<a/>");
}

#[test]
fn neither_utf8_nor_utf16_is_unrecognized() {
    let bytes = [0x00, 0xD8, 0xD8, 0x00];
    assert!(matches!(to_text(&bytes), Err(Error::UnrecognizedEncoding)));
}

#[test]
fn gzip_data_decompress() {
    let raw = b"<svg xmlns='http://www.w3.org/2000/svg'/>";
    let compressed = gzip(raw);
    assert_eq!(&compressed[..2], &[0x1f, 0x8b]);
    assert_eq!(decompress_svgz(&compressed).unwrap(), raw.to_vec());
}

#[test]
fn broken_gzip_data_are_malformed() {
    assert!(matches!(decompress_svgz(&[0x1f, 0x8b, 0x00, 0x00]), Err(Error::MalformedGZip)));
}

#[test]
fn truncated_gzip_data_are_malformed() {
    let compressed = gzip(b"<svg xmlns='http://www.w3.org/2000/svg'/>");
    let cut = &compressed[..compressed.len() - 6];
    assert!(matches!(decompress_svgz(cut), Err(Error::MalformedGZip)));
}

#[test]
fn data_without_gzip_magic_are_read_directly() {
    assert_eq!(text_from_data(b"<svg/>").unwrap(), "<svg/>");
}

#[test]
fn gzip_data_give_the_text_they_hold() {
    let compressed = gzip("<svg>\u{416}</svg>".as_bytes());
    assert_eq!(text_from_data(&compressed).unwrap(), "<svg>\u{416}</svg>");
}

#[test]
fn gzip_data_with_utf16_inside() {
    let compressed = gzip(&[0xFF, 0xFE, 0x61, 0x00]);
    assert_eq!(text_from_data(&compressed).unwrap(), "a");
}

#[test]
fn gzip_magic_with_garbage_is_malformed() {
    assert!(matches!(text_from_data(&[0x1f, 0x8b]), Err(Error::MalformedGZip)));
}

#[test]
fn gzip_data_with_unreadable_bytes_inside() {
    let compressed = gzip(&[0x00, 0xD8, 0xD8, 0x00]);
    assert!(matches!(text_from_data(&compressed), Err(Error::UnrecognizedEncoding)));
}

#[test]
fn messages() {
    assert_eq!(
        Error::UnrecognizedEncoding.message(),
        "provided data has an unrecognized encoding"
    );
    assert_eq!(Error::MalformedGZip.message(), "provided data has a malformed GZip content");
    assert_eq!(
        Error::ElementsLimitReached.message(),
        "the maximum number of SVG elements has been reached"
    );
    assert_eq!(Error::InvalidSize.message(), "SVG has an invalid size");
}

#[test]
fn message_of_a_parsing_failure() {
    let e = roxmltree::Document::parse("<svg").unwrap_err();
    let expected = format!("SVG data parsing failed cause {}", e);
    let message = Error::from(e).message();
    assert_eq!(message, expected);
    assert!(message.len() > "SVG data parsing failed cause ".len());
}
