use std::io::Write;

use usvg_parser::converter::State;
use usvg_parser::error::Error;
use usvg_parser::names::{AId, EId};
use usvg_parser::number::Number;
use usvg_parser::options::Options;
use usvg_parser::parsing::TreeParsing;
use usvg_parser::svgtree::{Document, NodeKind, Resolved, TextPath};
use usvg_parser::style::PathRef;
use usvg_parser::text::{convert, Text, TextFlow, TextRendering};
use usvg_parser::xml::parse_tree;

const SVG: &str = "http://www.w3.org/2000/svg";

fn num(v: f32) -> Number {
    Number::from_bits(v.to_bits())
}

fn options(forgiving: bool) -> Options {
    Options {
        forgiving,
        text_rendering: TextRendering::OptimizeLegibility,
        font_family: "Times New Roman".to_string(),
    }
}

fn gzip(data: &[u8]) -> Vec<u8> {
    let mut encoder = flate2::write::GzEncoder::new(Vec::new(), flate2::Compression::default());
    encoder.write_all(data).unwrap();
    encoder.finish().unwrap()
}

fn numbers(list: &str) -> Vec<Number> {
    list.split(' ').filter(|s| !s.is_empty()).map(|s| num(s.parse::<f32>().unwrap())).collect()
}

/// Resolves what the text tests need: a font size for every element, and
/// the `x` and `rotate` lists read as plain numbers.
fn resolve(doc: &mut Document) {
    for node in 1..doc.len() {
        if doc.kind(node) != NodeKind::Element {
            continue;
        }
        let mut r = Resolved::plain(num(12.0));
        r.x = doc.attribute(node, AId::X).map(numbers);
        r.rotate = doc.attribute(node, AId::Rotate).map(numbers);
        if doc.tag_name(node) == Some(EId::TextPath) && doc.attribute(node, AId::Href) == Some("#p")
        {
            r.text_path = Some(TextPath { start_offset: num(0.0), path: PathRef { id: 1 } });
        }
        doc.set_resolved(node, r);
    }
}

fn text_element(doc: &Document) -> usize {
    (0..doc.len()).find(|n| doc.tag_name(*n) == Some(EId::Text)).unwrap()
}

fn lower_first_text(source: &str) -> Text {
    let mut doc = Document::from_str(source, &options(false)).unwrap();
    resolve(&mut doc);
    let state = State { opt: options(false), parent_markers: Vec::new() };
    let mut out = Vec::new();
    convert(&doc, text_element(&doc), &state, &mut out);
    out.pop().unwrap()
}

fn xs(text: &Text) -> Vec<Option<f32>> {
    text.positions.iter().map(|p| p.x.map(|n| f32::from_bits(n.to_bits()))).collect()
}

fn dump(doc: &Document) -> String {
    format!("{:?}", doc)
}

#[test]
fn elements_and_text_are_taken_over() {
    let source = format!(
        "<svg xmlns='{SVG}' width='10'><!-- c --><text id='t' x='1 2' data-x='3'>a<tspan>b</tspan>c</text><?pi?></svg>"
    );
    let doc = Document::from_str(&source, &options(false)).unwrap();
    assert_eq!(doc.len(), 7);
    assert_eq!(doc.kind(0), NodeKind::Root);
    assert_eq!(doc.tag_name(1), Some(EId::Svg));
    assert_eq!(doc.tag_name(2), Some(EId::Text));
    assert_eq!(doc.kind(3), NodeKind::Text);
    assert_eq!(doc.tag_name(4), Some(EId::Tspan));
    assert_eq!(doc.kind(5), NodeKind::Text);
    assert_eq!(doc.kind(6), NodeKind::Text);
    assert_eq!(doc.parent(1), 0);
    assert_eq!(doc.parent(2), 1);
    assert_eq!(doc.parent(3), 2);
    assert_eq!(doc.parent(4), 2);
    assert_eq!(doc.parent(5), 4);
    assert_eq!(doc.parent(6), 2);
    assert_eq!(doc.subtree_end(1), 7);
    assert_eq!(doc.subtree_end(2), 7);
    assert_eq!(doc.subtree_end(4), 6);
    assert_eq!(doc.attribute(1, AId::Width), Some("10"));
    assert_eq!(doc.attribute(2, AId::Id), Some("t"));
    assert_eq!(doc.attribute(2, AId::X), Some("1 2"));
    assert_eq!(doc.text_len(3), 1);
    assert_eq!(doc.text_char(3, 0), 'a');
    assert_eq!(doc.text_char(5, 0), 'b');
    assert_eq!(doc.text_char(6, 0), 'c');
    assert_eq!(doc.count_chars(2), 3);
    assert!(doc.is_closed(1));
    assert!(!doc.is_closed(0));
}

#[test]
fn unknown_elements_are_left_out_with_all_below() {
    let source = format!(
        "<svg xmlns='{SVG}'><blink><text>a</text></blink><g/><text>b</text><x:text xmlns:x='urn:x'>c</x:text></svg>"
    );
    let doc = Document::from_str(&source, &options(false)).unwrap();
    assert_eq!(doc.len(), 5);
    assert_eq!(doc.tag_name(1), Some(EId::Svg));
    assert_eq!(doc.tag_name(2), Some(EId::G));
    assert_eq!(doc.tag_name(3), Some(EId::Text));
    assert_eq!(doc.kind(4), NodeKind::Text);
    assert_eq!(doc.text_char(4, 0), 'b');
    assert_eq!(doc.subtree_end(2), 3);
    assert_eq!(doc.subtree_end(3), 5);
    assert_eq!(doc.subtree_end(1), 5);
}

#[test]
fn elements_outside_the_svg_namespace_are_left_out() {
    let doc = Document::from_str("<svg><text>a</text></svg>", &options(false)).unwrap();
    assert_eq!(doc.len(), 1);
}

#[test]
fn prefixed_attributes_go_by_their_local_name() {
    let source = format!(
        "<svg xmlns='{SVG}' xmlns:xlink='http://www.w3.org/1999/xlink'><text><textPath xlink:href='#p'>a</textPath></text></svg>"
    );
    let doc = Document::from_str(&source, &options(false)).unwrap();
    assert_eq!(doc.tag_name(3), Some(EId::TextPath));
    assert_eq!(doc.attribute(3, AId::Href), Some("#p"));
}

#[test]
fn a_parsed_document_equals_a_built_one() {
    let source = format!("<svg xmlns='{SVG}'><text id='t'>a<tspan>b</tspan></text></svg>");
    let parsed = Document::from_str(&source, &options(false)).unwrap();

    let zero = || Resolved::plain(num(0.0));
    let mut built = Document::new();
    built.open_element(EId::Svg, vec![], zero());
    built.open_element(
        EId::Text,
        vec![usvg_parser::svgtree::Attribute { id: AId::Id, value: "t".to_string() }],
        zero(),
    );
    built.append_text("a").unwrap();
    built.open_element(EId::Tspan, vec![], zero());
    built.append_text("b").unwrap();
    while built.close_element() {}

    assert_eq!(dump(&parsed), dump(&built));
}

#[test]
fn an_xml_document_can_be_handed_in() {
    let source = format!("<svg xmlns='{SVG}'><text>ab</text></svg>");
    let xml = roxmltree::Document::parse(&source).unwrap();
    let doc = Document::from_xmltree(&xml, &options(false)).unwrap();
    let same = parse_tree(&xml).unwrap();
    assert_eq!(doc.len(), 4);
    assert_eq!(doc.count_chars(2), 2);
    assert_eq!(dump(&doc), dump(&same));
}

#[test]
fn ill_formed_xml_is_a_parsing_failure() {
    let r = Document::from_str("<svg", &options(false));
    assert!(matches!(r, Err(Error::ParsingFailed(_))));
    let r = Document::from_data(b"<svg><g></svg>", &options(false));
    assert!(matches!(r, Err(Error::ParsingFailed(_))));
}

#[test]
fn nul_is_fatal_unless_forgiving() {
    let source = format!("<svg xmlns='{SVG}'><text>a\0b</text></svg>");
    assert!(matches!(
        Document::from_str(&source, &options(false)),
        Err(Error::ParsingFailed(_))
    ));
    let doc = Document::from_str(&source, &options(true)).unwrap();
    assert_eq!(doc.text_len(3), 2);
    assert_eq!(doc.text_char(3, 1), 'b');
}

#[test]
fn data_errors_come_through() {
    assert!(matches!(
        Document::from_data(&[0x00, 0xD8, 0xD8, 0x00], &options(false)),
        Err(Error::UnrecognizedEncoding)
    ));
    assert!(matches!(
        Document::from_data(&[0x1f, 0x8b, 0x08], &options(false)),
        Err(Error::MalformedGZip)
    ));
}

#[test]
fn utf16_data_are_parsed() {
    let source = format!("<svg xmlns='{SVG}'><text>\u{416}</text></svg>");
    let mut bytes = vec![0xFE, 0xFF];
    for unit in source.encode_utf16() {
        bytes.extend_from_slice(&unit.to_be_bytes());
    }
    let doc = Document::from_data(&bytes, &options(false)).unwrap();
    assert_eq!(doc.text_char(3, 0), '\u{416}');
}

#[test]
fn compressed_data_give_the_tree_of_the_raw_data() {
    let source = format!(
        "<svg xmlns='{SVG}' viewBox='0 0 10 10'><text x='1 2' font-weight='bold'>a<tspan>\u{416}</tspan></text></svg>"
    );
    let raw = source.as_bytes();
    let compressed = gzip(raw);
    assert_eq!(&compressed[..2], &[0x1f, 0x8b]);
    let from_raw = Document::from_data(raw, &options(false)).unwrap();
    let from_compressed = Document::from_data(&compressed, &options(false)).unwrap();
    assert_eq!(from_raw.len(), 6);
    assert_eq!(dump(&from_raw), dump(&from_compressed));
}

#[test]
fn nested_tspan_positions_from_source() {
    let source = format!(
        "<svg xmlns='{SVG}'><text><tspan x=\"100 110 120 130\">a<tspan x=\"50\">bc</tspan></tspan>d</text></svg>"
    );
    let text = lower_first_text(&source);
    assert_eq!(xs(&text), vec![Some(100.0), Some(50.0), Some(120.0), None]);
}

#[test]
fn clamped_positions_from_source() {
    let source = format!("<svg xmlns='{SVG}'><text>a<tspan x=\"10 20 30\">bc</tspan>d</text></svg>");
    let text = lower_first_text(&source);
    assert_eq!(xs(&text), vec![None, Some(10.0), Some(20.0), None]);
}

#[test]
fn text_path_chunks_from_source() {
    let source = format!(
        "<svg xmlns='{SVG}'><path id='p' d='M 0 0 L 10 0'/><text>A<textPath href=\"#p\">B</textPath>C</text></svg>"
    );
    let text = lower_first_text(&source);
    let texts: Vec<&str> = text.chunks.iter().map(|c| c.text.as_str()).collect();
    assert_eq!(texts, vec!["A", "B", "C"]);
    assert_eq!(text.chunks[0].text_flow, TextFlow::Linear);
    assert!(matches!(text.chunks[1].text_flow, TextFlow::Path(_)));
    assert_eq!(text.chunks[2].text_flow, TextFlow::Linear);
}

#[test]
fn font_weight_cascade_from_source() {
    let source = format!(
        "<svg xmlns='{SVG}'><text font-weight=\"bold\"><tspan font-weight=\"lighter\">X</tspan></text></svg>"
    );
    let text = lower_first_text(&source);
    assert_eq!(text.chunks[0].spans[0].font.weight, 600);
}

#[test]
fn rotation_from_source() {
    let source = format!("<svg xmlns='{SVG}'><text rotate='5 6'>abc<tspan rotate='7'>d</tspan></text></svg>");
    let text = lower_first_text(&source);
    let angles: Vec<f32> = text.rotate.iter().map(|n| f32::from_bits(n.to_bits())).collect();
    assert_eq!(angles, vec![5.0, 6.0, 6.0, 7.0]);
}

fn many_elements(count: usize) -> String {
    let mut source = String::with_capacity(count * 4 + 64);
    source.push_str("<svg xmlns='http://www.w3.org/2000/svg'>");
    for _ in 1..count {
        source.push_str("<g/>");
    }
    source.push_str("</svg>");
    source
}

#[test]
fn one_element_too_many() {
    let source = many_elements(1_000_001);
    let r = Document::from_str(&source, &options(false));
    assert!(matches!(r, Err(Error::ElementsLimitReached)));
}

#[test]
fn as_many_elements_as_allowed() {
    let source = many_elements(1_000_000);
    let doc = Document::from_str(&source, &options(false)).unwrap();
    assert_eq!(doc.len(), 1_000_001);
}

#[test]
fn elements_that_are_left_out_do_not_count() {
    let mut source = String::from("<svg xmlns='http://www.w3.org/2000/svg'><blink>");
    for _ in 0..1_000_100 {
        source.push_str("<g/>");
    }
    source.push_str("</blink></svg>");
    let doc = Document::from_str(&source, &options(false)).unwrap();
    assert_eq!(doc.len(), 2);
}
