use usvg_parser::chars::{char_len_utf8, find_sep, range_is, string_from};
use usvg_parser::converter::check_size;
use usvg_parser::error::Error;
use usvg_parser::names::{AId, EId};
use usvg_parser::number::Number;
use usvg_parser::svgtree::{chars_of, is_token, Attribute, Document, NodeKind, Resolved};

fn num(v: f32) -> Number {
    Number::from_bits(v.to_bits())
}

fn attr(id: AId, value: &str) -> Attribute {
    Attribute { id, value: value.to_string() }
}

#[test]
fn number_classes() {
    assert!(num(1.0).is_positive());
    assert!(num(f32::MIN_POSITIVE).is_positive());
    assert!(num(f32::MAX).is_positive());
    assert!(!num(0.0).is_positive());
    assert!(!num(-1.0).is_positive());
    assert!(!num(f32::INFINITY).is_positive());
    assert!(!num(f32::NAN).is_positive());
    assert!(num(0.0).is_zero());
    assert!(num(-0.0).is_zero());
    assert!(!num(1e-40).is_zero());
    assert!(num(-1.0).is_negative());
    assert!(num(f32::NEG_INFINITY).is_negative());
    assert!(!num(-0.0).is_negative());
    assert!(!num(f32::NAN).is_negative());
    assert!(!num(2.0).is_negative());
    assert_eq!(Number::zero_value().to_bits(), 0.0f32.to_bits());
}

#[test]
fn number_classes_agree_with_comparisons() {
    let samples = [
        0.0f32, -0.0, 1.0, -1.0, 12.5, -12.5, 1e-45, -1e-45, f32::MAX, f32::MIN,
        f32::INFINITY, f32::NEG_INFINITY, f32::NAN, -f32::NAN,
    ];
    for v in samples {
        assert_eq!(num(v).is_positive(), v.is_finite() && v > 0.0);
        assert_eq!(num(v).is_zero(), v == 0.0);
        assert_eq!(num(v).is_negative(), v < 0.0);
    }
}

#[test]
fn names_are_looked_up() {
    assert_eq!(EId::from_name("text"), Some(EId::Text));
    assert_eq!(EId::from_name("tspan"), Some(EId::Tspan));
    assert_eq!(EId::from_name("textPath"), Some(EId::TextPath));
    assert_eq!(EId::from_name("textpath"), None);
    assert_eq!(EId::from_name("blink"), None);
    assert_eq!(AId::from_name("font-weight"), Some(AId::FontWeight));
    assert_eq!(AId::from_name("startOffset"), Some(AId::StartOffset));
    assert_eq!(AId::from_name("x"), Some(AId::X));
    assert_eq!(AId::from_name("onclick"), None);
}

#[test]
fn utf8_widths() {
    assert_eq!(char_len_utf8('a'), 1);
    assert_eq!(char_len_utf8('\u{7F}'), 1);
    assert_eq!(char_len_utf8('\u{80}'), 2);
    assert_eq!(char_len_utf8('\u{7FF}'), 2);
    assert_eq!(char_len_utf8('\u{800}'), 3);
    assert_eq!(char_len_utf8('\u{FFFF}'), 3);
    assert_eq!(char_len_utf8('\u{10000}'), 4);
    assert_eq!(char_len_utf8('\u{10FFFF}'), 4);
    for c in ['a', '\u{416}', '\u{20AC}', '\u{1F600}'] {
        assert_eq!(char_len_utf8(c), c.len_utf8());
    }
}

#[test]
fn character_helpers() {
    let chars = chars_of("a\u{416},bc");
    assert_eq!(chars, vec!['a', '\u{416}', ',', 'b', 'c']);
    assert_eq!(find_sep(&chars, ',', 0), 2);
    assert_eq!(find_sep(&chars, ',', 3), 5);
    assert_eq!(string_from(&chars, 1, 4), "\u{416},b");
    assert!(range_is(&chars, 3, 5, &chars_of("bc")));
    assert!(!range_is(&chars, 3, 5, &chars_of("bd")));
    assert!(!range_is(&chars, 3, 5, &chars_of("b")));
    assert!(is_token(Some("none"), "none"));
    assert!(!is_token(Some("none "), "none"));
    assert!(!is_token(None, "none"));
}

#[test]
fn an_empty_document_holds_its_root() {
    let doc = Document::new();
    assert_eq!(doc.len(), 1);
    assert_eq!(doc.kind(0), NodeKind::Root);
    assert_eq!(doc.tag_name(0), None);
    assert_eq!(doc.parent(0), 0);
    assert!(!doc.is_closed(0));
    assert!(!doc.is_closed(7));
}

#[test]
fn nodes_are_numbered_in_document_order() {
    let mut doc = Document::new();
    let svg = doc.open_element(EId::Svg, vec![], Resolved::plain(num(12.0)));
    let text = doc.open_element(EId::Text, vec![attr(AId::Id, "t")], Resolved::plain(num(12.0)));
    let a = doc.append_text("ab").unwrap();
    let tspan = doc.open_element(EId::Tspan, vec![], Resolved::plain(num(12.0)));
    let b = doc.append_text("\u{416}").unwrap();
    assert!(doc.close_element());
    let c = doc.append_text("d").unwrap();
    assert!(doc.close_element());
    assert!(doc.close_element());
    assert!(!doc.close_element());

    assert_eq!((svg, text, a, tspan, b, c), (1, 2, 3, 4, 5, 6));
    assert_eq!(doc.len(), 7);
    assert_eq!(doc.parent(text), svg);
    assert_eq!(doc.parent(a), text);
    assert_eq!(doc.parent(tspan), text);
    assert_eq!(doc.parent(b), tspan);
    assert_eq!(doc.parent(c), text);
    assert_eq!(doc.subtree_end(text), 7);
    assert_eq!(doc.subtree_end(tspan), 6);
    assert_eq!(doc.subtree_end(a), 4);
    assert_eq!(doc.subtree_end(svg), 7);
    assert_eq!(doc.subtree_end(0), 0);
    assert!(doc.is_closed(text));
    assert_eq!(doc.kind(a), NodeKind::Text);
    assert_eq!(doc.kind(tspan), NodeKind::Element);
    assert_eq!(doc.tag_name(tspan), Some(EId::Tspan));
    assert_eq!(doc.tag_name(a), None);
    assert_eq!(doc.text_len(a), 2);
    assert_eq!(doc.text_len(b), 1);
    assert_eq!(doc.text_char(b, 0), '\u{416}');
    assert_eq!(doc.text_char(a, 1), 'b');
    assert_eq!(doc.text_len(tspan), 0);
    assert_eq!(doc.count_chars(text), 4);
    assert_eq!(doc.count_chars(tspan), 1);
    assert_eq!(doc.count_chars(svg), 4);
    assert_eq!(doc.count_chars(c), 1);
    assert_eq!(doc.ancestors(b), vec![b, tspan, text, svg, 0]);
    assert_eq!(doc.ancestors(0), vec![0]);
}

#[test]
fn attributes_are_found_on_the_node_and_above() {
    let mut doc = Document::new();
    let svg = doc.open_element(
        EId::Svg,
        vec![attr(AId::FontFamily, "Arial"), attr(AId::Fill, "red")],
        Resolved::plain(num(12.0)),
    );
    let text = doc.open_element(
        EId::Text,
        vec![attr(AId::Fill, "blue"), attr(AId::Fill, "green")],
        Resolved::plain(num(12.0)),
    );
    let t = doc.append_text("a").unwrap();
    doc.close_element();
    doc.close_element();

    assert_eq!(doc.attribute(text, AId::Fill), Some("blue"));
    assert_eq!(doc.attribute(text, AId::FontFamily), None);
    assert!(doc.has_attribute(svg, AId::FontFamily));
    assert!(!doc.has_attribute(text, AId::FontFamily));
    assert_eq!(doc.find_attribute(text, AId::FontFamily), Some("Arial"));
    assert_eq!(doc.find_attribute(t, AId::Fill), Some("blue"));
    assert_eq!(doc.find_attribute(svg, AId::Fill), Some("red"));
    assert_eq!(doc.find_attribute(t, AId::Stroke), None);
    assert_eq!(doc.find_attribute_node(t, AId::FontFamily), Some(svg));
    assert_eq!(doc.find_attribute_node(t, AId::Fill), Some(text));
    assert_eq!(doc.find_attribute_node(t, AId::X), None);
}

#[test]
fn resolved_values_and_titles_can_be_set() {
    let mut doc = Document::new();
    let text = doc.open_element(EId::Text, vec![], Resolved::plain(num(12.0)));
    let t = doc.append_text("a").unwrap();
    doc.close_element();

    assert!(doc.resolved(text).visible);
    assert_eq!(doc.resolved(text).font_size, num(12.0));
    assert_eq!(doc.resolved(text).kerning, num(-1.0));
    assert_eq!(doc.resolved(text).letter_spacing, num(0.0));
    assert!(doc.resolved(text).x.is_none());
    assert_eq!(doc.title(text), None);

    let mut r = Resolved::plain(num(20.0));
    r.visible = false;
    r.x = Some(vec![num(1.0), num(2.0)]);
    doc.set_resolved(text, r);
    doc.set_title(t, "hello".to_string());

    assert!(!doc.resolved(text).visible);
    assert_eq!(doc.resolved(text).font_size, num(20.0));
    assert_eq!(doc.resolved(text).x, Some(vec![num(1.0), num(2.0)]));
    assert_eq!(doc.title(t), Some("hello"));
    assert_eq!(doc.count_chars(text), 1);
    assert_eq!(doc.subtree_end(text), 3);
}

#[test]
fn size_is_checked() {
    assert!(check_size(Some(num(100.0)), Some(num(50.0)), false).is_ok());
    assert!(check_size(None, None, true).is_ok());
    assert!(check_size(Some(num(100.0)), None, false).is_ok());
    assert!(matches!(check_size(None, None, false), Err(Error::InvalidSize)));
    assert!(matches!(check_size(Some(num(0.0)), Some(num(50.0)), true), Err(Error::InvalidSize)));
    assert!(matches!(check_size(Some(num(10.0)), Some(num(-5.0)), true), Err(Error::InvalidSize)));
    assert!(matches!(check_size(Some(num(-0.0)), None, true), Err(Error::InvalidSize)));
}

#[test]
fn children_are_listed_in_document_order() {
    let mut doc = Document::new();
    let svg = doc.open_element(EId::Svg, vec![], Resolved::plain(num(12.0)));
    let text = doc.open_element(EId::Text, vec![], Resolved::plain(num(12.0)));
    let a = doc.append_text("ab").unwrap();
    let tspan = doc.open_element(EId::Tspan, vec![], Resolved::plain(num(12.0)));
    let b = doc.append_text("c").unwrap();
    let inner = doc.open_element(EId::Tspan, vec![], Resolved::plain(num(12.0)));
    doc.close_element();
    doc.close_element();
    let c = doc.append_text("d").unwrap();
    doc.close_element();
    let g = doc.open_element(EId::G, vec![], Resolved::plain(num(12.0)));
    doc.close_element();
    doc.close_element();

    assert_eq!(doc.children(svg), vec![text, g]);
    assert_eq!(doc.children(text), vec![a, tspan, c]);
    assert_eq!(doc.children(tspan), vec![b, inner]);
    assert_eq!(doc.children(inner), Vec::<usize>::new());
    assert_eq!(doc.children(a), Vec::<usize>::new());
    assert_eq!(doc.text(a), "ab");
    assert_eq!(doc.text(c), "d");
    assert_eq!(doc.text(tspan), "");
    for parent in [svg, text, tspan] {
        for child in doc.children(parent) {
            assert_eq!(doc.parent(child), parent);
        }
    }
}

#[test]
fn elements_are_found_by_tag_and_id() {
    let mut doc = Document::new();
    let svg = doc.open_element(EId::Svg, vec![], Resolved::plain(num(12.0)));
    let path = doc.open_element(EId::Path, vec![attr(AId::Id, "p")], Resolved::plain(num(12.0)));
    doc.close_element();
    let text = doc.open_element(EId::Text, vec![attr(AId::Id, "t")], Resolved::plain(num(12.0)));
    let first = doc.open_element(EId::TextPath, vec![attr(AId::Href, "#p")], Resolved::plain(num(12.0)));
    doc.close_element();
    let second = doc.open_element(EId::TextPath, vec![attr(AId::Href, "p")], Resolved::plain(num(12.0)));
    doc.close_element();
    let third = doc.open_element(EId::TextPath, vec![attr(AId::Href, "#q")], Resolved::plain(num(12.0)));
    doc.close_element();
    let twin = doc.open_element(EId::Tspan, vec![attr(AId::Id, "p")], Resolved::plain(num(12.0)));
    while doc.close_element() {}

    assert_eq!(doc.first_element(EId::Svg), Some(svg));
    assert_eq!(doc.first_element(EId::TextPath), Some(first));
    assert_eq!(doc.first_element(EId::Rect), None);
    assert_eq!(doc.element_by_id("p"), Some(path));
    assert_eq!(doc.element_by_id("t"), Some(text));
    assert_eq!(doc.element_by_id("#p"), None);
    assert_eq!(doc.element_by_id(""), None);
    assert_eq!(doc.link_target(first, AId::Href), Some(path));
    assert_eq!(doc.link_target(second, AId::Href), None);
    assert_eq!(doc.link_target(third, AId::Href), None);
    assert_eq!(doc.link_target(twin, AId::Href), None);
    assert_eq!(doc.link_target(text, AId::Id), None);
}
