use usvg_parser::baseline::convert_baseline_shift;
use usvg_parser::chunks::collect_text_chunks;
use usvg_parser::converter::State;
use usvg_parser::decoration::{
    contains_token, conv_text_decoration, conv_text_decoration2, find_decoration,
    resolve_decoration,
};
use usvg_parser::font::{
    conv_font_stretch, convert_font, parse_families, resolve_font_weight, step_weight,
};
use usvg_parser::names::{AId, EId};
use usvg_parser::number::Number;
use usvg_parser::options::Options;
use usvg_parser::positions::{resolve_positions_list, resolve_rotate_list};
use usvg_parser::span::{
    convert_writing_mode, resolve_dominant_baseline, resolve_paint_order, resolve_span,
    resolve_text_flow,
};
use usvg_parser::style::{Fill, PathRef, Stroke};
use usvg_parser::svgtree::{Attribute, Document, NodeId, Resolved, TextPath};
use usvg_parser::text::{
    convert, AlignmentBaseline, BaselineShift, DominantBaseline, FontStretch, FontStyle,
    LengthAdjust, PaintOrder, PaintOrderKind, Text, TextAnchor, TextDecorationStyle, TextFlow,
    TextRendering, Visibility, WritingMode,
};

fn num(v: f32) -> Number {
    Number::from_bits(v.to_bits())
}

fn nums(values: &[f32]) -> Vec<Number> {
    values.iter().map(|v| num(*v)).collect()
}

fn attr(id: AId, value: &str) -> Attribute {
    Attribute { id, value: value.to_string() }
}

fn plain() -> Resolved {
    Resolved::plain(num(12.0))
}

fn with_x(values: &[f32]) -> Resolved {
    let mut r = plain();
    r.x = Some(nums(values));
    r
}

fn with_rotate(values: &[f32]) -> Resolved {
    let mut r = plain();
    r.rotate = Some(nums(values));
    r
}

fn state() -> State {
    State {
        opt: Options {
            forgiving: false,
            text_rendering: TextRendering::OptimizeLegibility,
            font_family: "Times New Roman".to_string(),
        },
        parent_markers: Vec::new(),
    }
}

fn lower(doc: &Document, text: NodeId) -> Text {
    let mut out = Vec::new();
    convert(doc, text, &state(), &mut out);
    assert_eq!(out.len(), 1);
    out.pop().unwrap()
}

fn xs(text: &Text) -> Vec<Option<f32>> {
    text.positions.iter().map(|p| p.x.map(|n| f32::from_bits(n.to_bits()))).collect()
}

fn angles(list: &[Number]) -> Vec<f32> {
    list.iter().map(|n| f32::from_bits(n.to_bits())).collect()
}

fn chunk_texts(text: &Text) -> Vec<String> {
    text.chunks.iter().map(|c| c.text.clone()).collect()
}

fn span_ranges(text: &Text, chunk: usize) -> Vec<(usize, usize)> {
    text.chunks[chunk].spans.iter().map(|s| (s.start, s.end)).collect()
}

fn codepoints(text: &Text) -> usize {
    text.chunks.iter().map(|c| c.text.chars().count()).sum()
}

fn assert_tiled(text: &Text) {
    for chunk in &text.chunks {
        assert!(!chunk.spans.is_empty());
        assert_eq!(chunk.spans[0].start, 0);
        let mut at = 0;
        let mut sum = 0;
        for span in &chunk.spans {
            assert_eq!(span.start, at);
            assert!(span.start < span.end);
            assert!(chunk.text.is_char_boundary(span.start));
            assert!(chunk.text.is_char_boundary(span.end));
            sum += span.end - span.start;
            at = span.end;
        }
        assert_eq!(at, chunk.text.len());
        assert_eq!(sum, chunk.text.len());
    }
}

/// `<svg><text ...>` with the text element open.
fn open_text(attrs: Vec<Attribute>, resolved: Resolved) -> (Document, NodeId) {
    let mut doc = Document::new();
    doc.open_element(EId::Svg, vec![], plain());
    let text = doc.open_element(EId::Text, attrs, resolved);
    (doc, text)
}

fn close_all(doc: &mut Document) {
    while doc.close_element() {}
}

#[test]
fn nested_tspan_positions() {
    // <text><tspan x="100 110 120 130">a<tspan x="50">bc</tspan></tspan>d</text>
    let (mut doc, text) = open_text(vec![], plain());
    doc.open_element(EId::Tspan, vec![], with_x(&[100.0, 110.0, 120.0, 130.0]));
    doc.append_text("a").unwrap();
    doc.open_element(EId::Tspan, vec![], with_x(&[50.0]));
    doc.append_text("bc").unwrap();
    doc.close_element();
    doc.close_element();
    doc.append_text("d").unwrap();
    close_all(&mut doc);

    let lowered = lower(&doc, text);
    assert_eq!(xs(&lowered), vec![Some(100.0), Some(50.0), Some(120.0), None]);
    assert_eq!(chunk_texts(&lowered), vec!["a", "b", "cd"]);
}

#[test]
fn positions_do_not_leak_past_the_element() {
    // <text>a<tspan x="10 20 30">bc</tspan>d</text>
    let (mut doc, text) = open_text(vec![], plain());
    doc.append_text("a").unwrap();
    doc.open_element(EId::Tspan, vec![], with_x(&[10.0, 20.0, 30.0]));
    doc.append_text("bc").unwrap();
    doc.close_element();
    doc.append_text("d").unwrap();
    close_all(&mut doc);

    let lowered = lower(&doc, text);
    assert_eq!(xs(&lowered), vec![None, Some(10.0), Some(20.0), None]);
    assert_eq!(resolve_positions_list(&doc, text), lowered.positions);
}

#[test]
fn all_four_axes_are_written() {
    let mut r = plain();
    r.x = Some(nums(&[1.0]));
    r.y = Some(nums(&[2.0, 3.0]));
    r.dx = Some(nums(&[4.0, 5.0, 6.0]));
    r.dy = Some(nums(&[]));
    let (mut doc, text) = open_text(vec![], r);
    doc.append_text("ab").unwrap();
    close_all(&mut doc);

    let list = resolve_positions_list(&doc, text);
    assert_eq!(list.len(), 2);
    assert_eq!((list[0].x, list[0].y, list[0].dx, list[0].dy), (Some(num(1.0)), Some(num(2.0)), Some(num(4.0)), None));
    assert_eq!((list[1].x, list[1].y, list[1].dx, list[1].dy), (None, Some(num(3.0)), Some(num(5.0)), None));
}

#[test]
fn text_path_says_nothing_about_positions() {
    let (mut doc, text) = open_text(vec![], plain());
    let mut r = with_x(&[7.0]);
    r.text_path = Some(TextPath { start_offset: num(0.0), path: PathRef { id: 1 } });
    doc.open_element(EId::TextPath, vec![], r);
    doc.append_text("a").unwrap();
    close_all(&mut doc);

    assert_eq!(xs(&lower(&doc, text)), vec![None]);
}

#[test]
fn text_path_splits_chunks() {
    // <text>A<textPath href="#p">B</textPath>C</text>
    let (mut doc, text) = open_text(vec![], plain());
    doc.append_text("A").unwrap();
    let mut r = plain();
    let path = TextPath { start_offset: num(5.0), path: PathRef { id: 3 } };
    r.text_path = Some(path);
    let tp = doc.open_element(EId::TextPath, vec![attr(AId::Href, "#p")], r);
    doc.append_text("B").unwrap();
    doc.close_element();
    doc.append_text("C").unwrap();
    close_all(&mut doc);

    assert_eq!(resolve_text_flow(&doc, tp), Some(TextFlow::Path(path)));
    assert_eq!(resolve_text_flow(&doc, text), None);
    let lowered = lower(&doc, text);
    assert_eq!(chunk_texts(&lowered), vec!["A", "B", "C"]);
    assert_eq!(lowered.chunks[0].text_flow, TextFlow::Linear);
    assert_eq!(lowered.chunks[1].text_flow, TextFlow::Path(path));
    assert_eq!(lowered.chunks[2].text_flow, TextFlow::Linear);
    assert_tiled(&lowered);
}

#[test]
fn flow_is_linear_again_after_an_element_inside_a_text_path() {
    // <text><textPath>a<tspan>b</tspan>c</textPath></text>
    let (mut doc, text) = open_text(vec![], plain());
    let mut r = plain();
    let path = TextPath { start_offset: num(0.0), path: PathRef { id: 9 } };
    r.text_path = Some(path);
    doc.open_element(EId::TextPath, vec![], r);
    doc.append_text("a").unwrap();
    doc.open_element(EId::Tspan, vec![], with_x(&[1.0]));
    doc.append_text("b").unwrap();
    doc.close_element();
    doc.open_element(EId::Tspan, vec![], with_x(&[2.0]));
    doc.append_text("c").unwrap();
    close_all(&mut doc);

    let lowered = lower(&doc, text);
    assert_eq!(chunk_texts(&lowered), vec!["a", "b", "c"]);
    assert_eq!(lowered.chunks[0].text_flow, TextFlow::Path(path));
    assert_eq!(lowered.chunks[1].text_flow, TextFlow::Path(path));
    assert_eq!(lowered.chunks[2].text_flow, TextFlow::Linear);
}

#[test]
fn text_path_below_a_tspan_is_passed_over() {
    // <text>a<tspan><textPath>bc</textPath>d</tspan>e</text>
    let (mut doc, text) = open_text(vec![], with_x(&[1.0, 2.0, 3.0, 4.0, 5.0]));
    doc.append_text("a").unwrap();
    doc.open_element(EId::Tspan, vec![], plain());
    let mut r = plain();
    r.text_path = Some(TextPath { start_offset: num(0.0), path: PathRef { id: 1 } });
    doc.open_element(EId::TextPath, vec![], r);
    doc.append_text("bc").unwrap();
    doc.close_element();
    doc.append_text("d").unwrap();
    doc.close_element();
    doc.append_text("e").unwrap();
    close_all(&mut doc);

    let lowered = lower(&doc, text);
    assert_eq!(chunk_texts(&lowered), vec!["a", "d", "e"]);
    let starts: Vec<Option<Number>> = lowered.chunks.iter().map(|c| c.x).collect();
    assert_eq!(starts, vec![Some(num(1.0)), Some(num(4.0)), Some(num(5.0))]);
    assert_eq!(lowered.positions.len(), 5);
    assert!(lowered.chunks.iter().all(|c| c.text_flow == TextFlow::Linear));
}

#[test]
fn text_path_without_outline_is_passed_over() {
    // <text>a<textPath>bc</textPath>d</text>, the reference leads nowhere
    let (mut doc, text) = open_text(vec![], with_x(&[1.0]));
    doc.append_text("a").unwrap();
    doc.open_element(EId::TextPath, vec![], plain());
    doc.append_text("bc").unwrap();
    doc.close_element();
    doc.append_text("d").unwrap();
    close_all(&mut doc);

    let lowered = lower(&doc, text);
    // No chunk break is pending after a text path that was passed over.
    assert_eq!(chunk_texts(&lowered), vec!["ad"]);
    assert_eq!(span_ranges(&lowered, 0), vec![(0, 1), (1, 2)]);
    assert_eq!(lowered.positions.len(), 4);
}

#[test]
fn invisible_element_drops_its_characters() {
    // <text>a<tspan display="none">bc</tspan>d</text>
    let (mut doc, text) = open_text(vec![], with_x(&[1.0, 2.0, 3.0, 4.0]));
    doc.append_text("a").unwrap();
    let mut hidden = plain();
    hidden.visible = false;
    doc.open_element(EId::Tspan, vec![], hidden);
    doc.append_text("bc").unwrap();
    doc.close_element();
    doc.append_text("d").unwrap();
    close_all(&mut doc);

    let lowered = lower(&doc, text);
    assert_eq!(chunk_texts(&lowered), vec!["a", "d"]);
    assert_eq!(lowered.chunks[1].x, Some(num(4.0)));
    assert_eq!(lowered.positions.len(), 4);
    assert_eq!(lowered.rotate.len(), 4);
    assert_eq!(codepoints(&lowered) + 2, doc.count_chars(text));
}

#[test]
fn display_none_drops_the_characters() {
    let (mut doc, text) = open_text(vec![], plain());
    doc.append_text("a").unwrap();
    doc.open_element(EId::Tspan, vec![attr(AId::Display, "none")], plain());
    doc.append_text("bc").unwrap();
    // Display is not inherited through the tree of elements here: the inner
    // element is looked at on its own.
    doc.open_element(EId::Tspan, vec![attr(AId::Display, "inline")], plain());
    doc.append_text("d").unwrap();
    doc.close_element();
    doc.close_element();
    doc.append_text("e").unwrap();
    close_all(&mut doc);

    let lowered = lower(&doc, text);
    assert_eq!(chunk_texts(&lowered), vec!["ade"]);
    assert_eq!(lowered.positions.len(), 5);
}

#[test]
fn font_size_not_above_zero_drops_the_span() {
    for size in [0.0f32, -0.0, -3.0, f32::NAN, f32::INFINITY] {
        let (mut doc, text) = open_text(vec![], plain());
        doc.append_text("a").unwrap();
        doc.open_element(EId::Tspan, vec![], Resolved::plain(num(size)));
        doc.append_text("bc").unwrap();
        doc.close_element();
        doc.append_text("d").unwrap();
        close_all(&mut doc);

        let lowered = lower(&doc, text);
        assert_eq!(chunk_texts(&lowered), vec!["ad"]);
        assert_eq!(lowered.positions.len(), 4);
    }
}

#[test]
fn first_character_dropped_moves_the_first_chunk() {
    let (mut doc, text) = open_text(vec![], plain());
    let mut hidden = plain();
    hidden.visible = false;
    doc.open_element(EId::Tspan, vec![], hidden);
    doc.append_text("ab").unwrap();
    doc.close_element();
    doc.append_text("cd").unwrap();
    close_all(&mut doc);

    let lowered = lower(&doc, text);
    assert_eq!(chunk_texts(&lowered), vec!["cd"]);
    assert_eq!(lowered.chunks[0].x, None);
}

#[test]
fn characters_are_emitted_or_dropped() {
    let (mut doc, text) = open_text(vec![], plain());
    doc.append_text("ab").unwrap();
    let mut hidden = plain();
    hidden.visible = false;
    doc.open_element(EId::Tspan, vec![], hidden);
    doc.append_text("cde").unwrap();
    doc.close_element();
    doc.open_element(EId::Tspan, vec![], Resolved::plain(num(0.0)));
    doc.append_text("f").unwrap();
    doc.close_element();
    doc.open_element(EId::TextPath, vec![], plain());
    doc.append_text("gh").unwrap();
    doc.open_element(EId::Tspan, vec![], plain());
    doc.append_text("i").unwrap();
    doc.close_element();
    doc.close_element();
    doc.append_text("\u{416}").unwrap();
    close_all(&mut doc);

    let lowered = lower(&doc, text);
    let total = doc.count_chars(text);
    assert_eq!(total, 10);
    assert_eq!(lowered.positions.len(), total);
    assert_eq!(lowered.rotate.len(), total);
    // Dropped: "cde", "f", "gh", "i".
    assert_eq!(codepoints(&lowered) + 7, total);
    assert_eq!(chunk_texts(&lowered), vec!["ab\u{416}"]);
    assert_tiled(&lowered);
}

#[test]
fn spans_tile_the_bytes_of_a_chunk() {
    // <text>a\u{416}<tspan>\u{20AC}\u{1F600}</tspan>z</text>
    let (mut doc, text) = open_text(vec![], plain());
    doc.append_text("a\u{416}").unwrap();
    doc.open_element(EId::Tspan, vec![], plain());
    doc.append_text("\u{20AC}\u{1F600}").unwrap();
    doc.close_element();
    doc.append_text("z").unwrap();
    close_all(&mut doc);

    let lowered = lower(&doc, text);
    assert_eq!(chunk_texts(&lowered), vec!["a\u{416}\u{20AC}\u{1F600}z"]);
    assert_eq!(span_ranges(&lowered, 0), vec![(0, 3), (3, 10), (10, 11)]);
    assert_tiled(&lowered);
}

#[test]
fn chunk_starts_where_a_character_has_x_or_y() {
    let mut r = plain();
    r.x = Some(nums(&[1.0]));
    r.y = Some(vec![num(9.0), num(8.0)]);
    let (mut doc, text) = open_text(vec![], plain());
    doc.append_text("ab").unwrap();
    doc.open_element(EId::Tspan, vec![], r);
    doc.append_text("cde").unwrap();
    close_all(&mut doc);

    let lowered = lower(&doc, text);
    // Boundaries at 0 (first), 2 (x and y) and 3 (y).
    assert_eq!(chunk_texts(&lowered), vec!["ab", "c", "de"]);
    assert_eq!((lowered.chunks[0].x, lowered.chunks[0].y), (None, None));
    assert_eq!((lowered.chunks[1].x, lowered.chunks[1].y), (Some(num(1.0)), Some(num(9.0))));
    assert_eq!((lowered.chunks[2].x, lowered.chunks[2].y), (None, Some(num(8.0))));
    assert_eq!(span_ranges(&lowered, 2), vec![(0, 2)]);
}

#[test]
fn relative_offsets_start_no_chunk() {
    let mut r = plain();
    r.dx = Some(nums(&[1.0, 2.0]));
    r.dy = Some(nums(&[1.0, 2.0]));
    let (mut doc, text) = open_text(vec![], r);
    doc.append_text("ab").unwrap();
    close_all(&mut doc);

    assert_eq!(chunk_texts(&lower(&doc, text)), vec!["ab"]);
}

#[test]
fn empty_text_element_has_no_chunks() {
    let (mut doc, text) = open_text(vec![], plain());
    close_all(&mut doc);
    let lowered = lower(&doc, text);
    assert!(lowered.chunks.is_empty());
    assert!(lowered.positions.is_empty());
    assert!(lowered.rotate.is_empty());
}

#[test]
fn chunks_can_be_collected_with_given_positions() {
    let (mut doc, text) = open_text(vec![], plain());
    doc.append_text("abc").unwrap();
    close_all(&mut doc);

    let mut positions = resolve_positions_list(&doc, text);
    positions[1].y = Some(num(4.0));
    let chunks = collect_text_chunks(&doc, text, &positions, &state());
    let texts: Vec<&str> = chunks.iter().map(|c| c.text.as_str()).collect();
    assert_eq!(texts, vec!["a", "bc"]);
}

#[test]
fn rotation_is_carried_on() {
    // <text rotate="10 20">abcd</text>: the last angle is repeated.
    let (mut doc, text) = open_text(vec![], with_rotate(&[10.0, 20.0]));
    doc.append_text("abcd").unwrap();
    close_all(&mut doc);
    assert_eq!(angles(&resolve_rotate_list(&doc, text)), vec![10.0, 20.0, 20.0, 20.0]);
}

#[test]
fn rotation_of_nested_elements() {
    // <text rotate="1 2 3 4 5">a<tspan rotate="9">bc</tspan>d<tspan rotate="">e</tspan></text>
    let (mut doc, text) = open_text(vec![], with_rotate(&[1.0, 2.0, 3.0, 4.0, 5.0]));
    doc.append_text("a").unwrap();
    doc.open_element(EId::Tspan, vec![], with_rotate(&[9.0]));
    doc.append_text("bc").unwrap();
    doc.close_element();
    doc.append_text("d").unwrap();
    doc.open_element(EId::Tspan, vec![], with_rotate(&[]));
    doc.append_text("e").unwrap();
    close_all(&mut doc);

    // The inner list overwrites two characters; the empty list repeats the
    // angle carried from there.
    assert_eq!(angles(&resolve_rotate_list(&doc, text)), vec![1.0, 9.0, 9.0, 4.0, 9.0]);
}

#[test]
fn rotation_list_longer_than_the_element() {
    let (mut doc, text) = open_text(vec![], plain());
    doc.open_element(EId::Tspan, vec![], with_rotate(&[1.0, 2.0, 3.0]));
    doc.append_text("a").unwrap();
    doc.close_element();
    doc.open_element(EId::Tspan, vec![], with_rotate(&[]));
    doc.append_text("bc").unwrap();
    close_all(&mut doc);

    // Only the angle that was written is carried on.
    assert_eq!(angles(&resolve_rotate_list(&doc, text)), vec![1.0, 1.0, 1.0]);
}

#[test]
fn rotation_defaults_to_zero() {
    let (mut doc, text) = open_text(vec![], plain());
    doc.append_text("ab").unwrap();
    close_all(&mut doc);
    assert_eq!(angles(&lower(&doc, text).rotate), vec![0.0, 0.0]);
}

#[test]
fn font_weight_cascade() {
    // <text font-weight="bold"><tspan font-weight="lighter">X</tspan></text>
    let (mut doc, text) = open_text(vec![attr(AId::FontWeight, "bold")], plain());
    let tspan = doc.open_element(EId::Tspan, vec![attr(AId::FontWeight, "lighter")], plain());
    doc.append_text("X").unwrap();
    close_all(&mut doc);

    assert_eq!(resolve_font_weight(&doc, text), 700);
    assert_eq!(resolve_font_weight(&doc, tspan), 600);
    let lowered = lower(&doc, text);
    assert_eq!(lowered.chunks[0].spans[0].font.weight, 600);
}

#[test]
fn bolder_then_lighter_from_normal() {
    // 400, bolder: 700, lighter: 600.
    let mut doc = Document::new();
    let a = doc.open_element(EId::Svg, vec![], plain());
    let b = doc.open_element(EId::G, vec![attr(AId::FontWeight, "bolder")], plain());
    let c = doc.open_element(EId::Text, vec![attr(AId::FontWeight, "lighter")], plain());
    close_all(&mut doc);
    assert_eq!(resolve_font_weight(&doc, a), 400);
    assert_eq!(resolve_font_weight(&doc, b), 700);
    assert_eq!(resolve_font_weight(&doc, c), 600);
}

#[test]
fn weight_steps() {
    assert_eq!(step_weight(400, Some("bolder")), 700);
    assert_eq!(step_weight(400, Some("lighter")), 200);
    assert_eq!(step_weight(700, Some("lighter")), 600);
    assert_eq!(step_weight(500, Some("bolder")), 600);
    assert_eq!(step_weight(900, Some("bolder")), 900);
    assert_eq!(step_weight(100, Some("lighter")), 100);
    assert_eq!(step_weight(300, Some("bolder")), 400);
    assert_eq!(step_weight(500, Some("normal")), 400);
    assert_eq!(step_weight(500, Some("bold")), 700);
    assert_eq!(step_weight(500, Some("900")), 900);
    assert_eq!(step_weight(500, Some("100")), 100);
    assert_eq!(step_weight(500, Some("950")), 500);
    assert_eq!(step_weight(500, Some("")), 500);
    assert_eq!(step_weight(500, None), 500);
    for w in [100u16, 200, 300, 400, 500, 600, 700, 800, 900] {
        let back = step_weight(step_weight(w, Some("bolder")), Some("lighter"));
        assert_eq!(back == w, w != 300 && w != 400 && w != 900);
    }
}

#[test]
fn the_root_takes_no_part_in_the_weight() {
    let doc = Document::new();
    assert_eq!(resolve_font_weight(&doc, 0), 400);
}

#[test]
fn font_stretch_tokens() {
    let cases = [
        ("narrower", FontStretch::Condensed),
        ("condensed", FontStretch::Condensed),
        ("ultra-condensed", FontStretch::UltraCondensed),
        ("extra-condensed", FontStretch::ExtraCondensed),
        ("semi-condensed", FontStretch::SemiCondensed),
        ("semi-expanded", FontStretch::SemiExpanded),
        ("wider", FontStretch::Expanded),
        ("expanded", FontStretch::Expanded),
        ("extra-expanded", FontStretch::ExtraExpanded),
        ("ultra-expanded", FontStretch::UltraExpanded),
        ("normal", FontStretch::Normal),
        ("huge", FontStretch::Normal),
    ];
    for (token, expected) in cases {
        let (mut doc, text) = open_text(vec![attr(AId::FontStretch, token)], plain());
        let tspan = doc.open_element(EId::Tspan, vec![], plain());
        close_all(&mut doc);
        assert_eq!(conv_font_stretch(&doc, tspan), expected);
        assert_eq!(conv_font_stretch(&doc, text), expected);
    }
    let (mut doc, text) = open_text(vec![], plain());
    close_all(&mut doc);
    assert_eq!(conv_font_stretch(&doc, text), FontStretch::Normal);
}

#[test]
fn font_families_are_split_and_cleaned() {
    assert_eq!(parse_families("Arial"), vec!["Arial"]);
    assert_eq!(parse_families("'Noto Sans', serif"), vec!["Noto Sans", "serif"]);
    assert_eq!(parse_families("\"Noto Sans\",  serif ,,"), vec!["Noto Sans", "serif"]);
    // Only a quote at the very start or end of a piece is stripped, and
    // that before the white space goes.
    assert_eq!(parse_families("a, 'b'"), vec!["a", "'b"]);
    assert_eq!(parse_families("a,'b' "), vec!["a", "b'"]);
    assert_eq!(parse_families("'a"), vec!["a"]);
    assert_eq!(parse_families("a\""), vec!["a"]);
    assert_eq!(parse_families("'"), Vec::<String>::new());
    assert_eq!(parse_families("''"), Vec::<String>::new());
    assert_eq!(parse_families("' a '"), vec!["a"]);
    assert_eq!(parse_families("\t a\u{A0}\n"), vec!["a"]);
    assert_eq!(parse_families(""), Vec::<String>::new());
    assert_eq!(parse_families(" , "), Vec::<String>::new());
    assert_eq!(parse_families("a b"), vec!["a b"]);
}

#[test]
fn font_is_inherited_with_a_default_family() {
    let (mut doc, text) = open_text(
        vec![attr(AId::FontStyle, "italic"), attr(AId::FontFamily, "'My Font', sans-serif")],
        plain(),
    );
    let tspan = doc.open_element(EId::Tspan, vec![attr(AId::FontFamily, " ")], plain());
    let inner = doc.open_element(EId::Tspan, vec![attr(AId::FontStyle, "slanted")], plain());
    close_all(&mut doc);

    let font = convert_font(&doc, text, &state());
    assert_eq!(font.families, vec!["My Font", "sans-serif"]);
    assert_eq!(font.style, FontStyle::Italic);
    assert_eq!(font.stretch, FontStretch::Normal);
    assert_eq!(font.weight, 400);
    // The nearest font-family lists nothing: the default steps in.
    assert_eq!(convert_font(&doc, tspan, &state()).families, vec!["Times New Roman"]);
    // A style that cannot be read counts as normal.
    assert_eq!(convert_font(&doc, inner, &state()).style, FontStyle::Normal);
    assert_eq!(convert_font(&doc, 0, &state()).families, vec!["Times New Roman"]);
    assert_eq!(font.duplicate(), font);
}

#[test]
fn decoration_tokens() {
    assert!(contains_token("underline", "underline"));
    assert!(contains_token("overline underline", "underline"));
    assert!(contains_token("underline  overline", "overline"));
    assert!(!contains_token("underlined", "underline"));
    assert!(!contains_token("", "underline"));
    assert!(!contains_token("under line", "underline"));
    assert!(contains_token(" ", ""));
}

#[test]
fn decoration_comes_from_the_tspan_or_the_text() {
    let mut text_style = plain();
    text_style.fill = Some(Fill { id: 1 });
    text_style.stroke = Some(Stroke { id: 2 });
    let mut tspan_style = plain();
    tspan_style.fill = Some(Fill { id: 3 });
    let mut doc = Document::new();
    doc.open_element(EId::Svg, vec![attr(AId::TextDecoration, "overline")], plain());
    let text = doc.open_element(
        EId::Text,
        vec![attr(AId::TextDecoration, "underline line-through")],
        text_style,
    );
    let tspan =
        doc.open_element(EId::Tspan, vec![attr(AId::TextDecoration, "line-through")], tspan_style);
    let other =
        doc.open_element(EId::Tspan, vec![attr(AId::TextDecoration, "underline overline")], plain());
    close_all(&mut doc);

    assert!(find_decoration(&doc, text, "underline"));
    assert!(find_decoration(&doc, text, "overline"));
    assert!(!find_decoration(&doc, 0, "overline"));
    let inherited = conv_text_decoration(&doc, text);
    assert!(inherited.has_underline && inherited.has_overline && inherited.has_line_through);
    let own = conv_text_decoration2(&doc, tspan);
    assert!(!own.has_underline && !own.has_overline && own.has_line_through);
    // A list of two is not exactly either.
    let two = conv_text_decoration2(&doc, other);
    assert!(!two.has_underline && !two.has_overline && !two.has_line_through);

    let from_text = TextDecorationStyle { fill: Some(Fill { id: 1 }), stroke: Some(Stroke { id: 2 }) };
    let from_tspan = TextDecorationStyle { fill: Some(Fill { id: 3 }), stroke: None };
    let d = resolve_decoration(&doc, text, tspan);
    assert_eq!(d.underline, Some(from_text));
    assert_eq!(d.overline, Some(from_text));
    assert_eq!(d.line_through, Some(from_tspan));

    let (mut bare, bare_text) = open_text(vec![], plain());
    close_all(&mut bare);
    let none = resolve_decoration(&bare, bare_text, bare_text);
    assert_eq!((none.underline, none.overline, none.line_through), (None, None, None));
}

#[test]
fn baseline_shift_is_stacked_up_to_the_text() {
    let mut shifted = plain();
    shifted.baseline_shift = Some(num(-3.5));
    let mut doc = Document::new();
    doc.open_element(EId::Svg, vec![attr(AId::BaselineShift, "super")], plain());
    let text = doc.open_element(EId::Text, vec![attr(AId::BaselineShift, "sub")], plain());
    let a = doc.open_element(EId::Tspan, vec![attr(AId::BaselineShift, "super")], plain());
    let b = doc.open_element(EId::Tspan, vec![], plain());
    let c = doc.open_element(EId::Tspan, vec![attr(AId::BaselineShift, "30%")], shifted);
    let d = doc.open_element(EId::Tspan, vec![attr(AId::BaselineShift, "baseline")], plain());
    close_all(&mut doc);

    assert_eq!(convert_baseline_shift(&doc, text), vec![]);
    assert_eq!(convert_baseline_shift(&doc, a), vec![BaselineShift::Superscript]);
    assert_eq!(convert_baseline_shift(&doc, b), vec![BaselineShift::Superscript]);
    assert_eq!(
        convert_baseline_shift(&doc, c),
        vec![BaselineShift::Number(num(-3.5)), BaselineShift::Superscript]
    );
    assert_eq!(
        convert_baseline_shift(&doc, d),
        vec![
            BaselineShift::Baseline,
            BaselineShift::Number(num(-3.5)),
            BaselineShift::Superscript
        ]
    );
}

#[test]
fn baseline_shift_of_only_baselines_is_empty() {
    let (mut doc, _text) = open_text(vec![], plain());
    let a = doc.open_element(EId::Tspan, vec![attr(AId::BaselineShift, "baseline")], plain());
    let b = doc.open_element(EId::Tspan, vec![attr(AId::BaselineShift, "unknown")], plain());
    let c = doc.open_element(EId::Tspan, vec![attr(AId::BaselineShift, "sub")], plain());
    close_all(&mut doc);
    assert_eq!(convert_baseline_shift(&doc, a), vec![]);
    assert_eq!(convert_baseline_shift(&doc, b), vec![]);
    assert_eq!(
        convert_baseline_shift(&doc, c),
        vec![BaselineShift::Subscript, BaselineShift::Baseline, BaselineShift::Baseline]
    );
}

#[test]
fn resolved_shift_without_the_attribute_adds_nothing() {
    let mut shifted = plain();
    shifted.baseline_shift = Some(num(2.0));
    let (mut doc, _text) = open_text(vec![], plain());
    let a = doc.open_element(EId::Tspan, vec![], shifted);
    close_all(&mut doc);
    assert_eq!(convert_baseline_shift(&doc, a), vec![]);
}

#[test]
fn writing_modes() {
    let cases = [
        ("lr", WritingMode::LeftToRight),
        ("lr-tb", WritingMode::LeftToRight),
        ("rl", WritingMode::LeftToRight),
        ("rl-tb", WritingMode::LeftToRight),
        ("horizontal-tb", WritingMode::LeftToRight),
        ("tb", WritingMode::TopToBottom),
        ("tb-rl", WritingMode::TopToBottom),
        ("vertical-rl", WritingMode::TopToBottom),
        ("vertical-lr", WritingMode::TopToBottom),
        ("", WritingMode::LeftToRight),
    ];
    for (token, expected) in cases {
        let mut doc = Document::new();
        doc.open_element(EId::Svg, vec![attr(AId::WritingMode, token)], plain());
        let text = doc.open_element(EId::Text, vec![], plain());
        close_all(&mut doc);
        assert_eq!(convert_writing_mode(&doc, text), expected);
        assert_eq!(lower(&doc, text).writing_mode, expected);
    }
    let (mut doc, text) = open_text(vec![], plain());
    close_all(&mut doc);
    assert_eq!(convert_writing_mode(&doc, text), WritingMode::LeftToRight);
}

#[test]
fn paint_order_is_read() {
    let order = |a, b, c| PaintOrder { first: a, second: b, third: c };
    let (f, s, m) = (PaintOrderKind::Fill, PaintOrderKind::Stroke, PaintOrderKind::Markers);
    let cases = [
        ("normal", order(f, s, m)),
        ("fill", order(f, s, m)),
        ("stroke", order(s, f, m)),
        ("markers", order(m, f, s)),
        ("stroke markers", order(s, m, f)),
        ("markers stroke fill", order(m, s, f)),
        ("stroke stroke", order(f, s, m)),
        ("paint", order(f, s, m)),
        ("", order(f, s, m)),
    ];
    for (token, expected) in cases {
        let (mut doc, text) = open_text(vec![attr(AId::PaintOrder, token)], plain());
        let tspan = doc.open_element(EId::Tspan, vec![], plain());
        close_all(&mut doc);
        assert_eq!(resolve_paint_order(&doc, tspan), expected);
        assert_eq!(resolve_paint_order(&doc, text), expected);
    }
    let (mut doc, text) = open_text(vec![], plain());
    close_all(&mut doc);
    assert_eq!(resolve_paint_order(&doc, text), order(f, s, m));

    assert!(!order(f, s, m).stroke_before_fill());
    assert!(!order(f, m, s).stroke_before_fill());
    assert!(order(s, f, m).stroke_before_fill());
    assert!(order(s, m, f).stroke_before_fill());
    assert!(order(m, s, f).stroke_before_fill());
    assert!(!order(m, f, s).stroke_before_fill());
}

#[test]
fn dominant_baseline_no_change_asks_the_parent() {
    let mut doc = Document::new();
    doc.open_element(EId::Svg, vec![attr(AId::DominantBaseline, "hanging")], plain());
    let text = doc.open_element(EId::Text, vec![attr(AId::DominantBaseline, "no-change")], plain());
    let tspan = doc.open_element(EId::Tspan, vec![], plain());
    let other = doc.open_element(EId::Tspan, vec![attr(AId::DominantBaseline, "middle")], plain());
    close_all(&mut doc);

    assert_eq!(resolve_dominant_baseline(&doc, text), DominantBaseline::Hanging);
    // The tspan inherits `no-change`, and so does its parent.
    assert_eq!(resolve_dominant_baseline(&doc, tspan), DominantBaseline::NoChange);
    assert_eq!(resolve_dominant_baseline(&doc, other), DominantBaseline::Middle);

    let mut top = Document::new();
    let lone = top.open_element(EId::Text, vec![attr(AId::DominantBaseline, "no-change")], plain());
    close_all(&mut top);
    assert_eq!(resolve_dominant_baseline(&top, lone), DominantBaseline::Auto);
}

#[test]
fn span_style_is_resolved() {
    let mut r = Resolved::plain(num(16.0));
    r.fill = Some(Fill { id: 7 });
    r.stroke = Some(Stroke { id: 8 });
    r.kerning = num(0.0);
    r.letter_spacing = num(1.5);
    r.word_spacing = num(2.5);
    r.text_length = Some(num(-1.0));
    let (mut doc, text) = open_text(
        vec![
            attr(AId::TextAnchor, "middle"),
            attr(AId::FontVariant, "small-caps"),
            attr(AId::Visibility, "hidden"),
            attr(AId::AlignmentBaseline, "central"),
            attr(AId::LengthAdjust, "spacingAndGlyphs"),
            attr(AId::Id, "label"),
            attr(AId::TextRendering, "geometricPrecision"),
        ],
        r,
    );
    let child = doc.append_text("a").unwrap();
    close_all(&mut doc);
    doc.set_title(text, "the title".to_string());

    let span = resolve_span(&doc, text, text, child, &state());
    assert_eq!((span.start, span.end), (0, 0));
    assert_eq!(span.fill, Some(Fill { id: 7 }));
    assert_eq!(span.stroke, Some(Stroke { id: 8 }));
    assert_eq!(span.font_size, num(16.0));
    assert!(span.small_caps);
    assert!(!span.apply_kerning);
    assert_eq!(span.visibility, Visibility::Hidden);
    assert_eq!(span.dominant_baseline, DominantBaseline::Auto);
    assert_eq!(span.alignment_baseline, AlignmentBaseline::Central);
    assert_eq!(span.letter_spacing, num(1.5));
    assert_eq!(span.word_spacing, num(2.5));
    assert_eq!(span.text_length, None);
    assert_eq!(span.length_adjust, LengthAdjust::SpacingAndGlyphs);
    assert_eq!(span.title.as_deref(), Some("the title"));
    let copy = span.duplicate();
    assert_eq!(copy.font, span.font);
    assert_eq!(copy.title, span.title);
    assert_eq!(copy.baseline_shift, span.baseline_shift);

    let lowered = lower(&doc, text);
    assert_eq!(lowered.id, "label");
    assert_eq!(lowered.rendering_mode, TextRendering::GeometricPrecision);
    assert_eq!(lowered.title.as_deref(), Some("the title"));
    assert_eq!(lowered.chunks[0].anchor, TextAnchor::Middle);
    assert_eq!(span_ranges(&lowered, 0), vec![(0, 1)]);
}

#[test]
fn span_defaults() {
    let mut r = plain();
    r.text_length = Some(num(40.0));
    let (mut doc, text) = open_text(vec![attr(AId::FontKerning, "none")], plain());
    let tspan = doc.open_element(EId::Tspan, vec![], r);
    let child = doc.append_text("a").unwrap();
    close_all(&mut doc);
    doc.set_title(child, "own".to_string());
    doc.set_title(tspan, "outer".to_string());

    let span = resolve_span(&doc, text, tspan, child, &state());
    assert!(!span.small_caps);
    assert!(!span.apply_kerning);
    assert_eq!(span.visibility, Visibility::Visible);
    assert_eq!(span.alignment_baseline, AlignmentBaseline::Auto);
    assert_eq!(span.length_adjust, LengthAdjust::Spacing);
    assert_eq!(span.text_length, Some(num(40.0)));
    assert_eq!(span.title.as_deref(), Some("own"));
    assert_eq!(span.font.families, vec!["Times New Roman"]);

    let lowered = lower(&doc, text);
    assert_eq!(lowered.id, "");
    assert_eq!(lowered.rendering_mode, TextRendering::OptimizeLegibility);
    assert_eq!(lowered.title, None);
    assert_eq!(lowered.chunks[0].anchor, TextAnchor::Start);
}

#[test]
fn kerning_applies_unless_zero_or_switched_off() {
    let (mut doc, text) = open_text(vec![], plain());
    let child = doc.append_text("a").unwrap();
    close_all(&mut doc);
    assert!(resolve_span(&doc, text, text, child, &state()).apply_kerning);

    let mut r = plain();
    r.kerning = num(-0.0);
    doc.set_resolved(text, r);
    assert!(!resolve_span(&doc, text, text, child, &state()).apply_kerning);

    let mut r = plain();
    r.kerning = num(2.0);
    doc.set_resolved(text, r);
    assert!(resolve_span(&doc, text, text, child, &state()).apply_kerning);
}

#[test]
fn text_inside_a_marker_has_no_id() {
    let (mut doc, text) = open_text(vec![attr(AId::Id, "label")], plain());
    doc.append_text("a").unwrap();
    close_all(&mut doc);
    let mut inside = state();
    inside.parent_markers.push(1);
    inside.opt.text_rendering = TextRendering::OptimizeSpeed;
    let mut out = Vec::new();
    convert(&doc, text, &inside, &mut out);
    convert(&doc, text, &state(), &mut out);
    assert_eq!(out.len(), 2);
    assert_eq!(out[0].id, "");
    assert_eq!(out[0].rendering_mode, TextRendering::OptimizeSpeed);
    assert_eq!(out[1].id, "label");
}

#[test]
fn tokens_are_parsed() {
    assert_eq!(TextAnchor::parse("start"), Some(TextAnchor::Start));
    assert_eq!(TextAnchor::parse("middle"), Some(TextAnchor::Middle));
    assert_eq!(TextAnchor::parse("end"), Some(TextAnchor::End));
    assert_eq!(TextAnchor::parse("End"), None);
    assert_eq!(TextAnchor::resolve(Some("centre")), TextAnchor::Start);
    assert_eq!(TextAnchor::resolve(None), TextAnchor::Start);
    assert_eq!(AlignmentBaseline::parse("text-before-edge"), Some(AlignmentBaseline::TextBeforeEdge));
    assert_eq!(AlignmentBaseline::parse("mathematical"), Some(AlignmentBaseline::Mathematical));
    assert_eq!(AlignmentBaseline::parse("use-script"), None);
    assert_eq!(DominantBaseline::parse("use-script"), Some(DominantBaseline::UseScript));
    assert_eq!(DominantBaseline::parse("reset-size"), Some(DominantBaseline::ResetSize));
    assert_eq!(DominantBaseline::parse("baseline"), None);
    assert_eq!(LengthAdjust::parse("spacing"), Some(LengthAdjust::Spacing));
    assert_eq!(LengthAdjust::parse("spacingandglyphs"), None);
    assert_eq!(FontStyle::parse("oblique"), Some(FontStyle::Oblique));
    assert_eq!(FontStyle::parse("bold"), None);
    assert_eq!(Visibility::parse("collapse"), Some(Visibility::Collapse));
    assert_eq!(TextRendering::parse("auto"), Some(TextRendering::OptimizeLegibility));
    assert_eq!(TextRendering::parse("optimizeSpeed"), Some(TextRendering::OptimizeSpeed));
    assert_eq!(TextRendering::parse("fast"), None);
}

#[test]
fn every_outermost_text_element_is_lowered() {
    let mut doc = Document::new();
    doc.open_element(EId::Svg, vec![], plain());
    doc.open_element(EId::Text, vec![attr(AId::Id, "a")], plain());
    doc.append_text("one").unwrap();
    doc.open_element(EId::Text, vec![attr(AId::Id, "inner")], plain());
    doc.append_text("two").unwrap();
    doc.close_element();
    doc.close_element();
    doc.open_element(EId::G, vec![], plain());
    doc.open_element(EId::Text, vec![attr(AId::Id, "b")], plain());
    doc.append_text("three").unwrap();
    doc.close_element();
    doc.close_element();
    // Still open: not lowered.
    doc.open_element(EId::Text, vec![attr(AId::Id, "c")], plain());
    doc.append_text("four").unwrap();

    let texts = usvg_parser::converter::convert_texts(&doc, &state());
    let ids: Vec<&str> = texts.iter().map(|t| t.id.as_str()).collect();
    assert_eq!(ids, vec!["a", "b"]);
    assert_eq!(chunk_texts(&texts[0]), vec!["onetwo"]);
    assert_eq!(chunk_texts(&texts[1]), vec!["three"]);
    assert_eq!(usvg_parser::converter::convert_texts(&Document::new(), &state()).len(), 0);
}
